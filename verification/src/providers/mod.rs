//! What holds for every provider: limits on media, errors and the validation of drafts.

pub mod exchange_laws;
pub mod fal;
pub mod fal_catalog;
pub mod fal_catalog_laws;
pub mod fal_endpoints;
pub mod fal_http;
pub mod fal_jobs;
pub mod fal_jobs_laws;
pub mod fal_laws;
pub mod fal_models;
pub mod fal_quote;
pub mod fal_transfer;
pub mod openrouter;
pub mod registry;

use crate::domain::{
    DraftMedia, GenerationDraft, MediaKind, MediaSource, ProviderDescriptor, ProviderId,
    FAL_PROVIDER_ID, OPENROUTER_PROVIDER_ID,
};
use crate::gui_state::hex_text;
use crate::json::{Json, JsonView};
use crate::outside::sha256;
use crate::text::{ascii_lowercase, concat, concat3, contains_text, decimal, starts_with_text};
use vstd::prelude::*;

verus! {

/// The most media items that one request may carry.
pub const MAX_MEDIA_INPUTS_TOTAL: usize = 12;

/// The most reference images that one request may carry.
pub const MAX_IMAGE_INPUTS: usize = 9;

/// The most reference videos that one request may carry.
pub const MAX_VIDEO_INPUTS: usize = 3;

/// The most reference audio clips that one request may carry.
pub const MAX_AUDIO_INPUTS: usize = 3;

/// Whether `model_id` names a model of the Seedance 2.0 family.
pub open spec fn seedance_2(model_id: Seq<char>) -> bool {
    "bytedance/seedance-2.0"@.is_prefix_of(crate::text::lower_text(model_id)) || crate::text::occurs(
        crate::text::lower_text(model_id),
        "/seedance-2.0/"@,
    )
}

/// Whether audio input must come with an image, a frame image or a video.
pub open spec fn needs_visual(provider_id: Seq<char>, model_id: Seq<char>) -> bool {
    provider_id == OPENROUTER_PROVIDER_ID@ || (provider_id == FAL_PROVIDER_ID@ && seedance_2(
        model_id,
    ))
}

/// Whether audio input for this provider and model must come with an image, a frame image or a
/// video.
pub fn audio_input_requires_visual(provider_id: &ProviderId, model_id: &str) -> (b: bool)
    ensures
        b == needs_visual(provider_id@, model_id@),
{
    if provider_id.is(OPENROUTER_PROVIDER_ID) {
        true
    } else if provider_id.is(FAL_PROVIDER_ID) {
        is_seedance_2_model_id(model_id)
    } else {
        false
    }
}

/// Whether `model_id` names a model of the Seedance 2.0 family, in any case.
pub fn is_seedance_2_model_id(model_id: &str) -> (b: bool)
    ensures
        b == seedance_2(model_id@),
{
    let lowered = ascii_lowercase(model_id);
    starts_with_text(lowered.as_str(), "bytedance/seedance-2.0") || contains_text(
        lowered.as_str(),
        "/seedance-2.0/",
    )
}

/// What kind of failure a provider reported.
#[derive(Debug, Clone, Copy, PartialEq, Eq, Structural)]
pub enum ProviderErrorKind {
    Authentication,
    InsufficientCredits,
    Validation,
    ContentPolicy,
    RateLimit,
    Unavailable,
    Network,
    SubmissionUncertain,
    UnsafeEndpoint,
    Response,
    Download,
    Configuration,
}

/// A failure of a provider operation.
#[derive(Debug)]
pub struct ProviderError {
    pub provider_id: ProviderId,
    pub kind: ProviderErrorKind,
    pub message: String,
    pub status_code: Option<u16>,
    pub code: Option<String>,
    pub details: Json,
    pub retry_after_seconds: Option<u64>,
}

/// The mathematical value of an error.
pub struct ErrorView {
    pub provider_id: Seq<char>,
    pub kind: ProviderErrorKind,
    pub message: Seq<char>,
    pub status_code: Option<u16>,
    pub code: Option<Seq<char>>,
    pub details: JsonView,
    pub retry_after_seconds: Option<u64>,
}

impl View for ProviderError {
    type V = ErrorView;

    open spec fn view(&self) -> ErrorView {
        ErrorView {
            provider_id: self.provider_id@,
            kind: self.kind,
            message: self.message@,
            status_code: self.status_code,
            code: crate::domain::opt_view(self.code),
            details: self.details@,
            retry_after_seconds: self.retry_after_seconds,
        }
    }
}

/// An error that carries nothing but its kind and message.
pub open spec fn plain_failure(
    provider_id: Seq<char>,
    kind: ProviderErrorKind,
    message: Seq<char>,
) -> ErrorView {
    ErrorView {
        provider_id,
        kind,
        message,
        status_code: None,
        code: None,
        details: JsonView::Object(Seq::empty()),
        retry_after_seconds: None,
    }
}

/// Whether an operation that failed in this way may succeed when it is repeated.
pub open spec fn kind_retryable(kind: ProviderErrorKind) -> bool {
    kind == ProviderErrorKind::Network || kind == ProviderErrorKind::RateLimit || kind
        == ProviderErrorKind::Unavailable || kind == ProviderErrorKind::Download
}

impl ProviderError {
    /// An error that carries nothing but its kind and message.
    pub fn new(provider_id: ProviderId, kind: ProviderErrorKind, message: String) -> (e:
        ProviderError)
        ensures
            e@ == plain_failure(provider_id@, kind, message@),
    {
        broadcast use crate::json::object_view;

        let details: Vec<crate::json::Member> = Vec::new();
        proof {
            assert(crate::json::members_view(details@) =~= Seq::empty());
        }
        ProviderError {
            provider_id,
            kind,
            message,
            status_code: None,
            code: None,
            details: Json::Object(details),
            retry_after_seconds: None,
        }
    }

    /// Whether the operation may succeed when it is repeated.
    pub fn retryable(&self) -> (b: bool)
        ensures
            b == kind_retryable(self.kind),
    {
        matches!(
            self.kind,
            ProviderErrorKind::Network | ProviderErrorKind::RateLimit
                | ProviderErrorKind::Unavailable | ProviderErrorKind::Download
        )
    }
}

/// An ambiguous submission is never repeated: its error is not retryable.
pub proof fn uncertain_submission_is_not_retryable()
    ensures
        !kind_retryable(ProviderErrorKind::SubmissionUncertain),
{
}

/// How a provider takes media.
#[derive(Debug, Clone, Copy, PartialEq, Eq, Structural)]
pub struct MediaCapabilities {
    pub remote_urls: bool,
    pub local_files: bool,
    /// Whether anyone who has the URL of an upload can retrieve it.
    pub uploaded_files_public: bool,
    /// How long uploads are kept, in seconds.
    pub upload_retention_seconds: Option<u64>,
}

impl MediaCapabilities {
    /// A provider that takes media by public URL and nothing else.
    pub fn urls_only() -> (c: MediaCapabilities)
        ensures
            c == (MediaCapabilities {
                remote_urls: true,
                local_files: false,
                uploaded_files_public: false,
                upload_retention_seconds: None,
            }),
    {
        MediaCapabilities {
            remote_urls: true,
            local_files: false,
            uploaded_files_public: false,
            upload_retention_seconds: None,
        }
    }
}

/// The file extension of a placeholder for local media.
pub open spec fn placeholder_extension(kind: MediaKind) -> Seq<char> {
    match kind {
        MediaKind::Image => "png"@,
        MediaKind::Video => "mp4"@,
        MediaKind::Audio => "mp3"@,
    }
}

/// The URL with which the media item at position `index` is validated; `Err` with the complaint
/// where the provider cannot take it.
pub open spec fn validation_url(
    media: DraftMedia,
    index: nat,
    capabilities: MediaCapabilities,
    staging: bool,
    display_name: Seq<char>,
) -> Result<Seq<char>, Seq<char>> {
    match media.source {
        MediaSource::RemoteUrl { url } => if capabilities.remote_urls {
            Ok(url@)
        } else {
            Err(display_name + " does not support remote reference URLs"@)
        },
        MediaSource::LocalFile { .. } => if capabilities.local_files || (staging
            && capabilities.remote_urls) {
            Ok(
                "https://validation.invalid/reference-"@ + crate::text::numeral(index + 1) + "."@
                    + placeholder_extension(media.role.kind()),
            )
        } else {
            Err(
                display_name
                    + " does not support local reference files; use a public HTTPS URL"@,
            )
        },
    }
}

/// The URLs with which a draft's media are validated, in order, or the complaint about the first
/// item that the provider cannot take. No local file is read: an item that would have to be
/// uploaded first is represented by an inert placeholder.
pub fn validation_urls(
    media: &Vec<DraftMedia>,
    capabilities: MediaCapabilities,
    staging: bool,
    display_name: &str,
) -> (r: Result<Vec<String>, String>)
    ensures
        match r {
            Ok(urls) => urls@.len() == media@.len() && forall|i: int|
                0 <= i < media@.len() ==> validation_url(
                    #[trigger] media@[i],
                    i as nat,
                    capabilities,
                    staging,
                    display_name@,
                ) == Ok::<Seq<char>, Seq<char>>(urls@[i]@),
            Err(message) => exists|k: int|
                0 <= k < media@.len() && validation_url(
                    #[trigger] media@[k],
                    k as nat,
                    capabilities,
                    staging,
                    display_name@,
                ) == Err::<Seq<char>, Seq<char>>(message@) && forall|i: int|
                    0 <= i < k ==> validation_url(
                        #[trigger] media@[i],
                        i as nat,
                        capabilities,
                        staging,
                        display_name@,
                    ) is Ok,
        },
{
    let mut urls: Vec<String> = Vec::new();
    let mut i: usize = 0;
    while i < media.len()
        invariant
            i <= media.len(),
            urls@.len() == i,
            forall|k: int|
                0 <= k < i ==> validation_url(
                    #[trigger] media@[k],
                    k as nat,
                    capabilities,
                    staging,
                    display_name@,
                ) == Ok::<Seq<char>, Seq<char>>(urls@[k]@),
        decreases media@.len() - i,
    {
        match &media[i].source {
            MediaSource::RemoteUrl { url } => {
                if !capabilities.remote_urls {
                    let message = concat(display_name, " does not support remote reference URLs");
                    assert(validation_url(
                        media@[i as int],
                        i as nat,
                        capabilities,
                        staging,
                        display_name@,
                    ) == Err::<Seq<char>, Seq<char>>(message@));
                    return Err(message);
                }
                urls.push(url.clone());
            },
            MediaSource::LocalFile { .. } => {
                if capabilities.local_files || (staging && capabilities.remote_urls) {
                    let extension = match media[i].role.kind() {
                        MediaKind::Image => "png",
                        MediaKind::Video => "mp4",
                        MediaKind::Audio => "mp3",
                    };
                    let number = decimal((i as u64) + 1);
                    let start = concat3(
                        "https://validation.invalid/reference-",
                        number.as_str(),
                        ".",
                    );
                    urls.push(concat(start.as_str(), extension));
                } else {
                    let message = concat(
                        display_name,
                        " does not support local reference files; use a public HTTPS URL",
                    );
                    assert(validation_url(
                        media@[i as int],
                        i as nat,
                        capabilities,
                        staging,
                        display_name@,
                    ) == Err::<Seq<char>, Seq<char>>(message@));
                    return Err(message);
                }
            },
        }
        i = i + 1;
    }
    Ok(urls)
}

/// What is wrong with the media item at a position: the provider cannot take it, or the URL that
/// stands for it has a problem.
pub open spec fn item_complaint(
    media: DraftMedia,
    index: nat,
    capabilities: MediaCapabilities,
    staging: bool,
    display_name: Seq<char>,
    url_problem: Option<Seq<char>>,
) -> Option<Seq<char>> {
    match validation_url(media, index, capabilities, staging, display_name) {
        Err(message) => Some(message),
        Ok(_) => url_problem,
    }
}

/// What is wrong with the first media item of a draft, from position `from` on, with which
/// anything is wrong.
pub open spec fn media_complaint(
    media: Seq<DraftMedia>,
    from: nat,
    capabilities: MediaCapabilities,
    staging: bool,
    display_name: Seq<char>,
    url_problems: Seq<Option<String>>,
) -> Option<Seq<char>>
    decreases media.len() - from,
{
    if from >= media.len() {
        None
    } else {
        match item_complaint(
            media[from as int],
            from,
            capabilities,
            staging,
            display_name,
            crate::domain::opt_view(url_problems[from as int]),
        ) {
            Some(message) => Some(message),
            None => media_complaint(
                media,
                from + 1,
                capabilities,
                staging,
                display_name,
                url_problems,
            ),
        }
    }
}

/// What the draft's own rules, the provider's and those on requests have to say.
#[derive(Debug)]
pub struct DraftFindings {
    /// What is wrong with the draft whoever the provider is.
    pub draft_problem: Option<String>,
    /// What the provider has against the draft's media.
    pub constraint: Option<ProviderError>,
    /// For each media item what is wrong with the URL that stands for it.
    pub url_problems: Vec<Option<String>>,
    /// What is wrong with the request that the draft makes.
    pub request_problem: Option<String>,
}

/// Why a draft is refused.
pub open spec fn draft_refusal(
    descriptor: ProviderDescriptor,
    capabilities: MediaCapabilities,
    draft: GenerationDraft,
    findings: DraftFindings,
    staging: bool,
) -> Option<ErrorView> {
    let refuse = |message: Seq<char>|
        plain_failure(descriptor.id@, ProviderErrorKind::Validation, message);
    if draft.provider_id@ != descriptor.id@ {
        Some(refuse("The draft belongs to a different provider"@))
    } else if findings.draft_problem is Some {
        Some(refuse(findings.draft_problem->0@))
    } else if findings.constraint is Some {
        Some(findings.constraint->0@)
    } else {
        match media_complaint(
            draft.media@,
            0,
            capabilities,
            staging,
            descriptor.display_name@,
            findings.url_problems@,
        ) {
            Some(message) => Some(refuse(message)),
            None => match findings.request_problem {
                Some(problem) => Some(refuse(problem@)),
                None => None,
            },
        }
    }
}

fn first_media_complaint(
    media: &Vec<DraftMedia>,
    capabilities: MediaCapabilities,
    staging: bool,
    display_name: &str,
    url_problems: &Vec<Option<String>>,
) -> (r: Option<String>)
    requires
        url_problems@.len() == media@.len(),
    ensures
        crate::domain::opt_view(r) == media_complaint(
            media@,
            0,
            capabilities,
            staging,
            display_name@,
            url_problems@,
        ),
{
    let mut i: usize = 0;
    while i < media.len()
        invariant
            i <= media@.len(),
            url_problems@.len() == media@.len(),
            media_complaint(media@, 0, capabilities, staging, display_name@, url_problems@)
                == media_complaint(
                media@,
                i as nat,
                capabilities,
                staging,
                display_name@,
                url_problems@,
            ),
        decreases media@.len() - i,
    {
        match &media[i].source {
            MediaSource::RemoteUrl { .. } => {
                if !capabilities.remote_urls {
                    return Some(concat(display_name, " does not support remote reference URLs"));
                }
            },
            MediaSource::LocalFile { .. } => {
                if !capabilities.local_files && !(staging && capabilities.remote_urls) {
                    return Some(
                        concat(
                            display_name,
                            " does not support local reference files; use a public HTTPS URL",
                        ),
                    );
                }
            },
        }
        if let Some(problem) = &url_problems[i] {
            return Some(problem.clone());
        }
        i = i + 1;
    }
    None
}

/// Checks a draft without uploading anything. `staging` says whether local files can be uploaded
/// elsewhere first.
pub fn validate_draft_with_local_staging(
    descriptor: &ProviderDescriptor,
    capabilities: MediaCapabilities,
    draft: &GenerationDraft,
    findings: DraftFindings,
    staging: bool,
) -> (r: Result<(), ProviderError>)
    requires
        findings.url_problems@.len() == draft.media@.len(),
    ensures
        match r {
            Ok(_) => draft_refusal(*descriptor, capabilities, *draft, findings, staging) is None,
            Err(e) => draft_refusal(*descriptor, capabilities, *draft, findings, staging) == Some(
                e@,
            ),
        },
{
    if !draft.provider_id.same(&descriptor.id) {
        return Err(
            refused_by(descriptor, "The draft belongs to a different provider".to_owned()),
        );
    }
    if let Some(problem) = findings.draft_problem {
        return Err(refused_by(descriptor, problem));
    }
    if let Some(error) = findings.constraint {
        return Err(error);
    }
    if let Some(message) = first_media_complaint(
        &draft.media,
        capabilities,
        staging,
        descriptor.display_name.as_str(),
        &findings.url_problems,
    ) {
        return Err(refused_by(descriptor, message));
    }
    if let Some(problem) = findings.request_problem {
        return Err(refused_by(descriptor, problem));
    }
    Ok(())
}

/// Checks a draft without uploading anything, where local files cannot be uploaded elsewhere first.
pub fn validate_draft(
    descriptor: &ProviderDescriptor,
    capabilities: MediaCapabilities,
    draft: &GenerationDraft,
    findings: DraftFindings,
) -> (r: Result<(), ProviderError>)
    requires
        findings.url_problems@.len() == draft.media@.len(),
    ensures
        match r {
            Ok(_) => draft_refusal(*descriptor, capabilities, *draft, findings, false) is None,
            Err(e) => draft_refusal(*descriptor, capabilities, *draft, findings, false) == Some(
                e@,
            ),
        },
{
    validate_draft_with_local_staging(descriptor, capabilities, draft, findings, false)
}

fn refused_by(descriptor: &ProviderDescriptor, message: String) -> (e: ProviderError)
    ensures
        e@ == plain_failure(descriptor.id@, ProviderErrorKind::Validation, message@),
{
    ProviderError::new(descriptor.id.copy(), ProviderErrorKind::Validation, message)
}

/// Where a provider takes neither local files nor remote URLs, no draft with a media item passes.
pub proof fn unusable_media_is_refused(
    descriptor: ProviderDescriptor,
    capabilities: MediaCapabilities,
    draft: GenerationDraft,
    findings: DraftFindings,
    staging: bool,
)
    requires
        !capabilities.remote_urls,
        !capabilities.local_files,
        draft.media@.len() > 0,
    ensures
        draft_refusal(descriptor, capabilities, draft, findings, staging) is Some,
{
    reveal_with_fuel(media_complaint, 2);
}

/// Checks that a request is the provider's. `problem` says what is wrong with it otherwise.
pub fn validate_request(
    descriptor: &ProviderDescriptor,
    request_provider: &ProviderId,
    problem: Option<String>,
) -> (r: Result<(), ProviderError>)
    ensures
        match r {
            Ok(_) => request_provider@ == descriptor.id@ && problem is None,
            Err(e) => e@ == plain_failure(
                descriptor.id@,
                ProviderErrorKind::Validation,
                if request_provider@ != descriptor.id@ {
                    "The request belongs to a different provider"@
                } else {
                    problem->0@
                },
            ) && (request_provider@ == descriptor.id@ ==> problem is Some),
        },
{
    if !request_provider.same(&descriptor.id) {
        return Err(
            refused_by(descriptor, "The request belongs to a different provider".to_owned()),
        );
    }
    if let Some(problem) = problem {
        return Err(refused_by(descriptor, problem));
    }
    Ok(())
}

/// The public URL of a media item at a provider that takes no uploads. `problem` says what is
/// wrong with the item.
pub fn stage_remote(descriptor: &ProviderDescriptor, media: &DraftMedia, problem: Option<String>)
    -> (r: Result<String, ProviderError>)
    ensures
        match r {
            Ok(public) => problem is None && (media.source matches MediaSource::RemoteUrl { url }
                && public@ == url@),
            Err(e) => match problem {
                Some(text) => e@ == plain_failure(
                    descriptor.id@,
                    ProviderErrorKind::Validation,
                    text@,
                ),
                None => media.source is LocalFile && e@ == plain_failure(
                    descriptor.id@,
                    ProviderErrorKind::Validation,
                    descriptor.display_name@
                        + " does not support local reference files; use a public HTTPS URL"@,
                ),
            },
        },
{
    if let Some(problem) = problem {
        return Err(refused_by(descriptor, problem));
    }
    match &media.source {
        MediaSource::RemoteUrl { url } => Ok(url.clone()),
        MediaSource::LocalFile { .. } => {
            let message = concat(
                descriptor.display_name.as_str(),
                " does not support local reference files; use a public HTTPS URL",
            );
            Err(refused_by(descriptor, message))
        },
    }
}

/// Refuses a submission with a deadline at a provider that cannot keep one.
pub fn refuse_deadline(descriptor: &ProviderDescriptor, has_deadline: bool) -> (r: Result<
    (),
    ProviderError,
>)
    ensures
        r is Ok <==> !has_deadline,
        r matches Err(e) ==> e@ == plain_failure(
            descriptor.id@,
            ProviderErrorKind::Configuration,
            descriptor.display_name@
                + " cannot safely submit a deadline-bound Review; its adapter must implement a post-preflight deadline check"@,
        ),
{
    if has_deadline {
        let message = concat(
            descriptor.display_name.as_str(),
            " cannot safely submit a deadline-bound Review; its adapter must implement a post-preflight deadline check",
        );
        return Err(
            ProviderError::new(descriptor.id.copy(), ProviderErrorKind::Configuration, message),
        );
    }
    Ok(())
}

/// Whose key a provider was asked about. The balance is a decimal as text.
#[derive(Debug)]
pub struct ProviderAccount {
    pub label: String,
    pub balance: Option<String>,
    pub raw: Json,
}

/// Who can retrieve media after it has been uploaded.
#[derive(Debug, Clone, Copy, PartialEq, Eq, Structural)]
pub enum StagedVisibility {
    /// Anyone who has the URL.
    PublicByLink,
}

/// A service that turns local media into public URLs.
#[derive(Debug)]
pub struct MediaStagerDescriptor {
    pub id: String,
    pub display_name: String,
    /// The provider whose credential the service needs, if any.
    pub credential_provider: Option<ProviderId>,
    pub visibility: StagedVisibility,
    /// How long uploads are kept, in seconds.
    pub retention_seconds: Option<u64>,
}

/// How far an upload has come, in bytes.
#[derive(Debug, Clone, Copy, PartialEq, Eq, Structural)]
pub struct UploadProgress {
    pub sent: u64,
    pub total: u64,
}

/// The digest and the size of a media file's contents. The digest is the key under which an upload
/// of the file is remembered.
pub fn media_sha256(contents: &Vec<u8>) -> (r: (String, u64))
    ensures
        r.0@ == crate::gui_state::hex(crate::outside::sha256_of(contents@)),
        r.1 == contents@.len(),
{
    let digest = sha256(contents.as_slice());
    (hex_text(&digest), contents.len() as u64)
}

} // verus!
