//! The values that the client works with: providers, media, drafts, requests, models and jobs.

use crate::json::Json;
use crate::text::{chars_of, same_text, text_of};
use crate::urls::trim_end_slashes;
use vstd::prelude::*;

verus! {

/// The name of the OpenRouter provider.
pub const OPENROUTER_PROVIDER_ID: &'static str = "openrouter";

/// The name of the fal.ai provider.
pub const FAL_PROVIDER_ID: &'static str = "fal";

/// A provider, by name.
#[derive(Debug, Clone, PartialEq, Eq, PartialOrd, Ord)]
pub struct ProviderId {
    pub name: String,
}

impl View for ProviderId {
    type V = Seq<char>;

    open spec fn view(&self) -> Seq<char> {
        self.name@
    }
}

impl ProviderId {
    /// The provider called `name`.
    pub fn named(name: &str) -> (id: ProviderId)
        ensures
            id@ == name@,
    {
        ProviderId { name: name.to_owned() }
    }

    /// OpenRouter.
    pub fn openrouter() -> (id: ProviderId)
        ensures
            id@ == OPENROUTER_PROVIDER_ID@,
    {
        ProviderId::named(OPENROUTER_PROVIDER_ID)
    }

    /// fal.ai.
    pub fn fal() -> (id: ProviderId)
        ensures
            id@ == FAL_PROVIDER_ID@,
    {
        ProviderId::named(FAL_PROVIDER_ID)
    }

    /// The provider's name.
    pub fn as_str(&self) -> (s: &str)
        ensures
            s@ == self@,
    {
        self.name.as_str()
    }

    /// Whether both are the same provider.
    pub fn same(&self, other: &ProviderId) -> (b: bool)
        ensures
            b == (self@ == other@),
    {
        self.name == other.name
    }

    /// Whether this is the provider called `name`.
    pub fn is(&self, name: &str) -> (b: bool)
        ensures
            b == (self@ == name@),
    {
        same_text(self.name.as_str(), name)
    }

    /// The same provider again.
    pub fn copy(&self) -> (id: ProviderId)
        ensures
            id@ == self@,
    {
        ProviderId { name: self.name.clone() }
    }
}

/// A remote job: its provider and the identifier that the provider gave it.
#[derive(Debug, Clone, PartialEq, Eq, PartialOrd, Ord)]
pub struct ProviderJobKey {
    pub provider_id: ProviderId,
    pub remote_job_id: String,
}

impl View for ProviderJobKey {
    type V = (Seq<char>, Seq<char>);

    open spec fn view(&self) -> (Seq<char>, Seq<char>) {
        (self.provider_id@, self.remote_job_id@)
    }
}

impl ProviderJobKey {
    /// Whether both name the same job.
    pub fn same(&self, other: &ProviderJobKey) -> (b: bool)
        ensures
            b == (self@ == other@),
    {
        self.provider_id.same(&other.provider_id) && self.remote_job_id == other.remote_job_id
    }

    /// The same key again.
    pub fn copy(&self) -> (key: ProviderJobKey)
        ensures
            key@ == self@,
    {
        ProviderJobKey {
            provider_id: self.provider_id.copy(),
            remote_job_id: self.remote_job_id.clone(),
        }
    }
}

/// What a media item shows or plays.
#[derive(Debug, Clone, Copy, PartialEq, Eq, Structural)]
pub enum MediaKind {
    Image,
    Video,
    Audio,
}

impl MediaKind {
    /// The kind's name.
    pub open spec fn name(self) -> Seq<char> {
        match self {
            MediaKind::Image => "image"@,
            MediaKind::Video => "video"@,
            MediaKind::Audio => "audio"@,
        }
    }

    /// The kind's name.
    pub fn as_str(self) -> (s: &'static str)
        ensures
            s@ == self.name(),
    {
        match self {
            MediaKind::Image => "image",
            MediaKind::Video => "video",
            MediaKind::Audio => "audio",
        }
    }
}

/// How a draft uses a media item.
#[derive(Debug, Clone, Copy, PartialEq, Eq, Structural)]
pub enum MediaRole {
    StartFrame,
    EndFrame,
    Reference,
    VideoInput,
    AudioInput,
}

impl MediaRole {
    /// The kind of media that the role is for.
    pub open spec fn spec_kind(self) -> MediaKind {
        match self {
            MediaRole::StartFrame | MediaRole::EndFrame | MediaRole::Reference => MediaKind::Image,
            MediaRole::VideoInput => MediaKind::Video,
            MediaRole::AudioInput => MediaKind::Audio,
        }
    }

    /// The kind of media that the role is for.
    #[verifier::when_used_as_spec(spec_kind)]
    pub fn kind(self) -> (k: MediaKind)
        ensures
            k == self.spec_kind(),
    {
        match self {
            MediaRole::StartFrame | MediaRole::EndFrame | MediaRole::Reference => MediaKind::Image,
            MediaRole::VideoInput => MediaKind::Video,
            MediaRole::AudioInput => MediaKind::Audio,
        }
    }
}

/// Where a media item is.
#[derive(Debug, Clone)]
pub enum MediaSource {
    LocalFile { path: String },
    RemoteUrl { url: String },
}

/// A media item of a draft.
#[derive(Debug, Clone)]
pub struct DraftMedia {
    pub source: MediaSource,
    pub role: MediaRole,
}

impl MediaSource {
    /// The same source again.
    pub fn copy(&self) -> (source: MediaSource)
        ensures
            source == *self,
    {
        match self {
            MediaSource::LocalFile { path } => MediaSource::LocalFile { path: path.clone() },
            MediaSource::RemoteUrl { url } => MediaSource::RemoteUrl { url: url.clone() },
        }
    }
}

impl DraftMedia {
    /// The same item again.
    pub fn copy(&self) -> (media: DraftMedia)
        ensures
            media == *self,
    {
        DraftMedia { source: self.source.copy(), role: self.role }
    }
}

/// A generation as the user edits it.
#[derive(Debug)]
pub struct GenerationDraft {
    pub provider_id: ProviderId,
    pub model: String,
    pub prompt: String,
    pub duration: Option<u32>,
    pub resolution: Option<String>,
    pub aspect_ratio: Option<String>,
    pub size: Option<String>,
    pub generate_audio: Option<bool>,
    pub seed: Option<i64>,
    pub adapter_options: Option<Json>,
    pub media: Vec<DraftMedia>,
}

/// Which end of the video a frame image fixes.
#[derive(Debug, Clone, Copy, PartialEq, Eq, Structural)]
pub enum FrameType {
    FirstFrame,
    LastFrame,
}

impl FrameType {
    /// The frame's name.
    pub open spec fn name(self) -> Seq<char> {
        match self {
            FrameType::FirstFrame => "first_frame"@,
            FrameType::LastFrame => "last_frame"@,
        }
    }

    /// The frame's name.
    pub fn as_str(self) -> (s: &'static str)
        ensures
            s@ == self.name(),
    {
        match self {
            FrameType::FirstFrame => "first_frame",
            FrameType::LastFrame => "last_frame",
        }
    }
}

/// An image that fixes the first or the last frame.
#[derive(Debug, Clone)]
pub struct FrameImage {
    pub url: String,
    pub frame_type: FrameType,
}

/// A general reference for the generation.
#[derive(Debug, Clone)]
pub struct InputReference {
    pub url: String,
    pub kind: MediaKind,
}

/// A generation as it is sent to a provider.
#[derive(Debug)]
pub struct VideoRequest {
    pub provider_id: ProviderId,
    pub model: String,
    pub prompt: String,
    pub duration: Option<u32>,
    pub resolution: Option<String>,
    pub aspect_ratio: Option<String>,
    pub size: Option<String>,
    pub generate_audio: Option<bool>,
    pub seed: Option<i64>,
    pub frame_images: Vec<FrameImage>,
    pub input_references: Vec<InputReference>,
    pub adapter_options: Option<Json>,
}

/// Whether an input field takes one media item or a list.
#[derive(Debug, Clone, Copy, PartialEq, Eq, Structural)]
pub enum MediaCardinality {
    Scalar,
    List,
}

/// An input field of a model that takes media.
#[derive(Debug, Clone)]
pub struct MediaBinding {
    pub kind: MediaKind,
    pub cardinality: MediaCardinality,
    pub max_items: Option<usize>,
    pub property_name: String,
    pub title: Option<String>,
    pub description: Option<String>,
}

/// A name of a model's control and the input field that carries it.
#[derive(Debug, Clone)]
pub struct FieldMapping {
    pub canonical: String,
    pub field: String,
}

/// A price of a model: what it is for, and the amount as a decimal.
#[derive(Debug, Clone)]
pub struct PriceSku {
    pub sku: String,
    pub amount: String,
}

/// A model of a catalog.
#[derive(Debug)]
pub struct VideoModel {
    pub provider_id: ProviderId,
    pub id: String,
    pub name: String,
    pub description: String,
    pub supported_durations: Vec<u32>,
    pub supported_resolutions: Vec<String>,
    pub supported_aspect_ratios: Vec<String>,
    pub supported_sizes: Vec<String>,
    pub supported_frame_images: Vec<String>,
    pub generate_audio: Option<bool>,
    pub generated_audio_supported: bool,
    pub generated_audio_default: Option<bool>,
    pub seed: Option<bool>,
    pub input_modalities: Option<Vec<MediaKind>>,
    pub media_bindings: Vec<MediaBinding>,
    pub input_schema: Option<Json>,
    pub field_map: Vec<FieldMapping>,
    pub pricing_skus: Vec<PriceSku>,
}

/// The models that a provider offers.
#[derive(Debug)]
pub struct VideoCatalog {
    pub provider_id: ProviderId,
    pub models: Vec<VideoModel>,
    /// Whether the catalog is a cached copy.
    pub stale: bool,
    /// The identifier of the model to start a new draft with.
    pub preferred: Option<String>,
}

/// Whether the catalog lists a model with identifier `id`.
pub open spec fn catalog_has(catalog: VideoCatalog, id: Seq<char>) -> bool {
    exists|i: int| 0 <= i < catalog.models@.len() && (#[trigger] catalog.models@[i]).id@ == id
}

impl VideoCatalog {
    /// The position of the first model with identifier `id`.
    pub fn find(&self, id: &str) -> (r: Option<usize>)
        ensures
            match r {
                Some(i) => i < self.models@.len() && self.models@[i as int].id@ == id@ && forall|
                    k: int,
                | 0 <= k < i ==> (#[trigger] self.models@[k]).id@ != id@,
                None => !catalog_has(*self, id@),
            },
    {
        let mut i: usize = 0;
        while i < self.models.len()
            invariant
                i <= self.models@.len(),
                forall|k: int| 0 <= k < i ==> (#[trigger] self.models@[k]).id@ != id@,
            decreases self.models@.len() - i,
        {
            if same_text(self.models[i].id.as_str(), id) {
                return Some(i);
            }
            i = i + 1;
        }
        None
    }
}

/// What a provider is called.
#[derive(Debug)]
pub struct ProviderDescriptor {
    pub id: ProviderId,
    pub display_name: String,
    pub website: String,
}

/// How far a price is to be trusted.
#[derive(Debug, Clone, Copy, PartialEq, Eq, Structural)]
pub enum QuoteConfidence {
    Exact,
    Estimated,
    Unknown,
}

/// What a generation is expected to cost. Amounts are decimals as text.
#[derive(Debug)]
pub struct CostQuote {
    pub amount: Option<String>,
    pub basis: String,
    pub exact: bool,
    pub pricing_sku: Option<String>,
    pub unit_price: Option<String>,
    pub currency: String,
    pub raw_pricing: Vec<PriceSku>,
    pub confidence: QuoteConfidence,
}

/// What a provider says of a job.
#[derive(Debug, Clone)]
pub enum JobStatus {
    Pending,
    InProgress,
    Completed,
    Failed,
    Cancelled,
    Expired,
    Unknown(String),
}

/// The mathematical value of a status.
pub enum StatusView {
    Pending,
    InProgress,
    Completed,
    Failed,
    Cancelled,
    Expired,
    Unknown(Seq<char>),
}

impl View for JobStatus {
    type V = StatusView;

    open spec fn view(&self) -> StatusView {
        match *self {
            JobStatus::Pending => StatusView::Pending,
            JobStatus::InProgress => StatusView::InProgress,
            JobStatus::Completed => StatusView::Completed,
            JobStatus::Failed => StatusView::Failed,
            JobStatus::Cancelled => StatusView::Cancelled,
            JobStatus::Expired => StatusView::Expired,
            JobStatus::Unknown(name) => StatusView::Unknown(name@),
        }
    }
}

impl StatusView {
    /// The status's name.
    pub open spec fn name(self) -> Seq<char> {
        match self {
            StatusView::Pending => "pending"@,
            StatusView::InProgress => "in_progress"@,
            StatusView::Completed => "completed"@,
            StatusView::Failed => "failed"@,
            StatusView::Cancelled => "cancelled"@,
            StatusView::Expired => "expired"@,
            StatusView::Unknown(name) => name,
        }
    }

    /// Whether nothing more will happen to the job.
    pub open spec fn terminal(self) -> bool {
        self is Completed || self is Failed || self is Cancelled || self is Expired
    }
}

impl JobStatus {
    /// The status's name.
    pub fn as_str(&self) -> (s: &str)
        ensures
            s@ == self@.name(),
    {
        match self {
            JobStatus::Pending => "pending",
            JobStatus::InProgress => "in_progress",
            JobStatus::Completed => "completed",
            JobStatus::Failed => "failed",
            JobStatus::Cancelled => "cancelled",
            JobStatus::Expired => "expired",
            JobStatus::Unknown(name) => name.as_str(),
        }
    }

    /// Whether nothing more will happen to the job.
    pub fn terminal(&self) -> (b: bool)
        ensures
            b == self@.terminal(),
    {
        matches!(
            self,
            JobStatus::Completed | JobStatus::Failed | JobStatus::Cancelled | JobStatus::Expired
        )
    }
}

/// How to find a remote job again.
#[derive(Debug, Clone)]
pub enum JobLocator {
    OpenRouter { polling_url: String },
    Fal {
        endpoint_id: String,
        request_id: String,
        status_url: Option<String>,
        response_url: Option<String>,
    },
}

/// The mathematical value of a locator.
pub enum LocatorView {
    OpenRouter { polling_url: Seq<char> },
    Fal {
        endpoint_id: Seq<char>,
        request_id: Seq<char>,
        status_url: Option<Seq<char>>,
        response_url: Option<Seq<char>>,
    },
}

/// The text of an optional string.
pub open spec fn opt_view(s: Option<String>) -> Option<Seq<char>> {
    match s {
        Some(t) => Some(t@),
        None => None,
    }
}

impl View for JobLocator {
    type V = LocatorView;

    open spec fn view(&self) -> LocatorView {
        match *self {
            JobLocator::OpenRouter { polling_url } => LocatorView::OpenRouter {
                polling_url: polling_url@,
            },
            JobLocator::Fal { endpoint_id, request_id, status_url, response_url } =>
                LocatorView::Fal {
                endpoint_id: endpoint_id@,
                request_id: request_id@,
                status_url: opt_view(status_url),
                response_url: opt_view(response_url),
            },
        }
    }
}

impl LocatorView {
    /// The provider that the job is at.
    pub open spec fn provider(self) -> Seq<char> {
        match self {
            LocatorView::OpenRouter { .. } => OPENROUTER_PROVIDER_ID@,
            LocatorView::Fal { .. } => FAL_PROVIDER_ID@,
        }
    }

    /// The job's identifier there. OpenRouter's stands last in the path of its URL.
    pub open spec fn job_id(self) -> Seq<char> {
        match self {
            LocatorView::OpenRouter { polling_url } => behind_last_slash(
                crate::urls::without_end_slashes(polling_url),
            ),
            LocatorView::Fal { request_id, .. } => request_id,
        }
    }
}

/// What stands behind the last slash of a text, or all of it where there is none.
pub open spec fn behind_last_slash(text: Seq<char>) -> Seq<char>
    decreases text.len(),
{
    if text.len() == 0 || text.last() == '/' {
        Seq::empty()
    } else {
        behind_last_slash(text.drop_last()).push(text.last())
    }
}

proof fn last_part(text: Seq<char>, from: int)
    requires
        0 <= from <= text.len(),
        from == 0 || text[from - 1] == '/',
        forall|i: int| from <= i < text.len() ==> text[i] != '/',
    ensures
        behind_last_slash(text) == text.skip(from),
    decreases text.len(),
{
    if from == text.len() {
        assert(text.skip(from) =~= Seq::<char>::empty());
    } else {
        assert(text.last() == text[text.len() - 1]);
        last_part(text.drop_last(), from);
        assert(text.skip(from) =~= text.drop_last().skip(from).push(text.last()));
    }
}

/// The same optional text again.
pub fn copy_text(text: &Option<String>) -> (c: Option<String>)
    ensures
        opt_view(c) == opt_view(*text),
{
    match text {
        Some(t) => Some(t.clone()),
        None => None,
    }
}

impl JobLocator {
    /// The provider that the job is at.
    pub fn provider_id(&self) -> (id: ProviderId)
        ensures
            id@ == self@.provider(),
    {
        match self {
            JobLocator::OpenRouter { .. } => ProviderId::openrouter(),
            JobLocator::Fal { .. } => ProviderId::fal(),
        }
    }

    /// The job's identifier there.
    pub fn remote_job_id(&self) -> (id: String)
        ensures
            id@ == self@.job_id(),
    {
        match self {
            JobLocator::OpenRouter { polling_url } => {
                let url = trim_end_slashes(polling_url.as_str());
                let chars = chars_of(url.as_str());
                let mut from: usize = chars.len();
                while from > 0 && chars[from - 1] != '/'
                    invariant
                        from <= chars@.len(),
                        forall|i: int| from <= i < chars@.len() ==> chars@[i] != '/',
                    decreases from,
                {
                    from = from - 1;
                }
                proof {
                    last_part(url@, from as int);
                }
                let id = text_of(&chars, from, chars.len());
                assert(id@ =~= url@.skip(from as int));
                id
            },
            JobLocator::Fal { request_id, .. } => request_id.clone(),
        }
    }

    /// The provider and the identifier of the job.
    pub fn key(&self) -> (key: ProviderJobKey)
        ensures
            key@ == (self@.provider(), self@.job_id()),
    {
        ProviderJobKey { provider_id: self.provider_id(), remote_job_id: self.remote_job_id() }
    }

    /// The same locator again.
    pub fn copy(&self) -> (locator: JobLocator)
        ensures
            locator@ == self@,
    {
        match self {
            JobLocator::OpenRouter { polling_url } => JobLocator::OpenRouter {
                polling_url: polling_url.clone(),
            },
            JobLocator::Fal { endpoint_id, request_id, status_url, response_url } =>
                JobLocator::Fal {
                endpoint_id: endpoint_id.clone(),
                request_id: request_id.clone(),
                status_url: copy_text(status_url),
                response_url: copy_text(response_url),
            },
        }
    }
}

/// A job as its provider reports it.
#[derive(Debug)]
pub struct VideoJob {
    pub provider_id: ProviderId,
    pub id: String,
    pub status: JobStatus,
    /// The URL at which OpenRouter reports on the job; for fal.ai, the locator as it is written.
    pub polling_url: String,
    pub generation_id: Option<String>,
    pub unsigned_urls: Vec<String>,
    pub usage: Json,
    pub error: Option<String>,
    pub locator: JobLocator,
    pub artifacts: Vec<VideoArtifact>,
    pub raw: Json,
}

impl VideoJob {
    /// The job's provider and identifier.
    pub open spec fn spec_key(self) -> (Seq<char>, Seq<char>) {
        (self.provider_id@, self.id@)
    }

    /// The job's provider and identifier.
    pub fn key(&self) -> (key: ProviderJobKey)
        ensures
            key@ == self.spec_key(),
    {
        ProviderJobKey { provider_id: self.provider_id.copy(), remote_job_id: self.id.clone() }
    }
}

/// A video that a job produced.
#[derive(Debug, Clone)]
pub struct VideoArtifact {
    pub url: String,
    pub index: usize,
    pub content_type: Option<String>,
}

/// A point in time: whole seconds since the Unix epoch and nanoseconds within the second.
#[derive(Debug, Clone, Copy, PartialEq, Eq, Structural)]
pub struct Timestamp {
    pub seconds: i64,
    pub nanos: u32,
}

impl Timestamp {
    /// Whether `self` lies before `other`.
    pub open spec fn before(self, other: Timestamp) -> bool {
        self.seconds < other.seconds || (self.seconds == other.seconds && self.nanos < other.nanos)
    }

    /// Whether `self` lies before `other`.
    pub fn is_before(self, other: Timestamp) -> (b: bool)
        ensures
            b == self.before(other),
    {
        self.seconds < other.seconds || (self.seconds == other.seconds && self.nanos < other.nanos)
    }
}

} // verus!
