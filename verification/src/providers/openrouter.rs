//! Rules for requests to OpenRouter.

use crate::domain::{
    CostQuote, InputReference, JobLocator, JobStatus, LocatorView, MediaKind, ProviderDescriptor,
    ProviderId, QuoteConfidence, StatusView, Timestamp, VideoArtifact, VideoJob, VideoModel,
    VideoRequest, OPENROUTER_PROVIDER_ID,
};
use crate::json::Json;
use crate::outside::read_url;
use crate::providers::{
    audio_input_requires_visual, ErrorView, ProviderError, ProviderErrorKind, MAX_AUDIO_INPUTS,
    MAX_IMAGE_INPUTS, MAX_MEDIA_INPUTS_TOTAL, MAX_VIDEO_INPUTS,
};
use crate::text::{concat, concat3, decimal, list_texts, same_text};
use std::sync::Arc;
use vstd::prelude::*;

verus! {

/// A validation failure of OpenRouter.
pub open spec fn refusal(message: Seq<char>) -> ErrorView {
    crate::providers::plain_failure(OPENROUTER_PROVIDER_ID@, ProviderErrorKind::Validation, message)
}

fn validation(message: String) -> (e: ProviderError)
    ensures
        e@ == refusal(message@),
{
    ProviderError::new(ProviderId::openrouter(), ProviderErrorKind::Validation, message)
}

/// How many references are of kind `kind`.
pub open spec fn count_kind(references: Seq<InputReference>, kind: MediaKind) -> nat
    decreases references.len(),
{
    if references.len() == 0 {
        0
    } else {
        count_kind(references.drop_last(), kind) + if references.last().kind == kind {
            1nat
        } else {
            0nat
        }
    }
}

/// Every reference is counted under exactly one kind.
pub proof fn kinds_partition(references: Seq<InputReference>)
    ensures
        count_kind(references, MediaKind::Image) + count_kind(references, MediaKind::Video)
            + count_kind(references, MediaKind::Audio) == references.len(),
    decreases references.len(),
{
    if references.len() > 0 {
        kinds_partition(references.drop_last());
    }
}

fn references_of_kind(references: &Vec<InputReference>, kind: MediaKind) -> (n: usize)
    ensures
        n == count_kind(references@, kind),
        n <= references@.len(),
{
    let mut n: usize = 0;
    let mut i: usize = 0;
    assert(references@.take(0) =~= Seq::<InputReference>::empty());
    while i < references.len()
        invariant
            n <= i <= references@.len(),
            n == count_kind(references@.take(i as int), kind),
        decreases references@.len() - i,
    {
        assert(references@.take(i + 1).drop_last() =~= references@.take(i as int));
        if references[i].kind == kind {
            n = n + 1;
        }
        i = i + 1;
    }
    assert(references@.take(references@.len() as int) =~= references@);
    n
}

/// The complaint about a request's reference media, if there is one.
pub open spec fn reference_complaint(model_id: Seq<char>, request: VideoRequest) -> Option<
    Seq<char>,
> {
    let images = count_kind(request.input_references@, MediaKind::Image);
    let videos = count_kind(request.input_references@, MediaKind::Video);
    let audio = count_kind(request.input_references@, MediaKind::Audio);
    if request.frame_images@.len() > 0 && request.input_references@.len() > 0 {
        Some(
            "OpenRouter frame_images cannot be combined with general input references because the frame inputs take precedence"@,
        )
    } else if images > MAX_IMAGE_INPUTS {
        Some("OpenRouter accepts at most "@ + crate::text::numeral(9) + " reference images"@)
    } else if videos > MAX_VIDEO_INPUTS {
        Some("OpenRouter accepts at most "@ + crate::text::numeral(3) + " reference videos"@)
    } else if audio > MAX_AUDIO_INPUTS {
        Some("OpenRouter accepts at most "@ + crate::text::numeral(3) + " reference audio files"@)
    } else if images + videos + audio > MAX_MEDIA_INPUTS_TOTAL {
        Some("OpenRouter accepts at most "@ + crate::text::numeral(12) + " reference media items"@)
    } else if audio > 0 && images + videos == 0 && crate::providers::needs_visual(OPENROUTER_PROVIDER_ID@, model_id) {
        Some("OpenRouter audio references require at least one image or video reference"@)
    } else {
        None
    }
}

/// A request that passes keeps every limit on reference media, never mixes frames with general
/// references, and sends audio only in visual company.
pub proof fn accepted_references_keep_limits(model_id: Seq<char>, request: VideoRequest)
    requires
        reference_complaint(model_id, request) is None,
    ensures
        request.frame_images@.len() == 0 || request.input_references@.len() == 0,
        request.input_references@.len() <= MAX_MEDIA_INPUTS_TOTAL,
        count_kind(request.input_references@, MediaKind::Audio) > 0 ==> count_kind(
            request.input_references@,
            MediaKind::Image,
        ) + count_kind(request.input_references@, MediaKind::Video) > 0,
{
    kinds_partition(request.input_references@);
}

/// Checks the number and the combination of a request's reference media.
pub fn validate_reference_policy(model_id: &str, request: &VideoRequest) -> (r: Result<
    (),
    ProviderError,
>)
    ensures
        match r {
            Ok(_) => reference_complaint(model_id@, *request) is None,
            Err(e) => reference_complaint(model_id@, *request) matches Some(message) && e@
                == refusal(message),
        },
{
    if request.frame_images.len() > 0 && request.input_references.len() > 0 {
        return Err(
            validation(
                "OpenRouter frame_images cannot be combined with general input references because the frame inputs take precedence".to_owned(),
            ),
        );
    }
    let images: usize = references_of_kind(&request.input_references, MediaKind::Image);
    let videos: usize = references_of_kind(&request.input_references, MediaKind::Video);
    let audio: usize = references_of_kind(&request.input_references, MediaKind::Audio);
    proof {
        kinds_partition(request.input_references@);
    }
    if images > MAX_IMAGE_INPUTS {
        return Err(at_most(MAX_IMAGE_INPUTS, " reference images"));
    }
    if videos > MAX_VIDEO_INPUTS {
        return Err(at_most(MAX_VIDEO_INPUTS, " reference videos"));
    }
    if audio > MAX_AUDIO_INPUTS {
        return Err(at_most(MAX_AUDIO_INPUTS, " reference audio files"));
    }
    if images + videos + audio > MAX_MEDIA_INPUTS_TOTAL {
        return Err(at_most(MAX_MEDIA_INPUTS_TOTAL, " reference media items"));
    }
    if audio > 0 && images + videos == 0 && audio_input_requires_visual(
        &ProviderId::openrouter(),
        model_id,
    ) {
        return Err(
            validation(
                "OpenRouter audio references require at least one image or video reference".to_owned(),
            ),
        );
    }
    Ok(())
}

fn at_most(limit: usize, what: &str) -> (e: ProviderError)
    ensures
        e@ == refusal("OpenRouter accepts at most "@ + crate::text::numeral(limit as nat) + what@),
{
    let number = decimal(limit as u64);
    validation(concat3("OpenRouter accepts at most ", number.as_str(), what))
}

/// Whether a request has inputs whose price the catalog does not fix.
pub open spec fn variable_cost(request: VideoRequest) -> bool {
    request.frame_images@.len() > 0 || request.input_references@.len() > 0 || (
    request.adapter_options matches Some(Json::Object(options)) && options@.len() > 0)
}

/// Whether a request has media or provider options, which can change the final charge.
pub fn request_has_variable_cost_inputs(request: &VideoRequest) -> (b: bool)
    ensures
        b == variable_cost(*request),
{
    request.frame_images.len() > 0 || request.input_references.len() > 0
        || match &request.adapter_options {
        Some(Json::Object(options)) => options.len() > 0,
        _ => false,
    }
}

/// Refuses a request that belongs to another provider.
pub fn ensure_provider(request: &VideoRequest) -> (r: Result<(), ProviderError>)
    ensures
        match r {
            Ok(_) => request.provider_id@ == OPENROUTER_PROVIDER_ID@,
            Err(e) => request.provider_id@ != OPENROUTER_PROVIDER_ID@ && e@ == refusal(
                "The request belongs to a different provider"@,
            ),
        },
{
    if request.provider_id.is(OPENROUTER_PROVIDER_ID) {
        Ok(())
    } else {
        Err(validation("The request belongs to a different provider".to_owned()))
    }
}

/// What OpenRouter is called.
pub fn descriptor() -> (d: ProviderDescriptor)
    ensures
        d.id@ == OPENROUTER_PROVIDER_ID@,
        d.display_name@ == "OpenRouter"@,
        d.website@ == "https://openrouter.ai"@,
{
    ProviderDescriptor {
        id: ProviderId::openrouter(),
        display_name: "OpenRouter".to_owned(),
        website: "https://openrouter.ai".to_owned(),
    }
}

/// Access to OpenRouter through a shared client, with the models of the last catalog.
pub struct OpenRouterProvider<C> {
    client: Arc<C>,
    models: Vec<VideoModel>,
}

impl<C> OpenRouterProvider<C> {
    /// The models of the last catalog.
    pub closed spec fn known(self) -> Seq<VideoModel> {
        self.models@
    }

    /// The shared client.
    pub closed spec fn spec_client(self) -> Arc<C> {
        self.client
    }

    /// Takes a client; no model is known yet.
    pub fn new(client: C) -> (provider: OpenRouterProvider<C>)
        ensures
            *provider.spec_client() == client,
            provider.known().len() == 0,
    {
        OpenRouterProvider { client: Arc::new(client), models: Vec::new() }
    }

    /// Takes a client that others use too; no model is known yet.
    pub fn from_shared(client: Arc<C>) -> (provider: OpenRouterProvider<C>)
        ensures
            provider.spec_client() == client,
            provider.known().len() == 0,
    {
        OpenRouterProvider { client, models: Vec::new() }
    }

    /// The shared client.
    pub fn client(&self) -> (client: &Arc<C>)
        ensures
            *client == self.spec_client(),
    {
        &self.client
    }

    /// Takes the models of a fresh catalog in the place of those that were known.
    pub fn remember(&mut self, models: Vec<VideoModel>)
        ensures
            final(self).known() == models@,
            final(self).spec_client() == old(self).spec_client(),
    {
        self.models = models;
    }

    /// The known model with an identifier: the last one, where a catalog lists several.
    pub fn cached(&self, model_id: &str) -> (r: Option<&VideoModel>)
        ensures
            match r {
                Some(model) => exists|i: int|
                    0 <= i < self.known().len() && *model == (#[trigger] self.known()[i])
                        && model.id@ == model_id@ && forall|k: int|
                        i < k < self.known().len() ==> (#[trigger] self.known()[k]).id@
                            != model_id@,
                None => forall|i: int|
                    0 <= i < self.known().len() ==> (#[trigger] self.known()[i]).id@ != model_id@,
            },
    {
        let mut n: usize = self.models.len();
        while n > 0
            invariant
                n <= self.models@.len(),
                forall|i: int|
                    n <= i < self.known().len() ==> (#[trigger] self.known()[i]).id@ != model_id@,
            decreases n,
        {
            if same_text(self.models[n - 1].id.as_str(), model_id) {
                assert(self.known()[n - 1] == self.models@[n - 1]);
                return Some(&self.models[n - 1]);
            }
            n = n - 1;
        }
        None
    }
}

/// The complaint about a model that the catalog does not list.
pub fn unlisted_model(model_id: &str) -> (e: ProviderError)
    ensures
        e@ == refusal(
            "OpenRouter model "@ + model_id@ + " is not in the current catalog"@,
        ),
{
    validation(concat3("OpenRouter model ", model_id, " is not in the current catalog"))
}

/// Texts with a semicolon and a blank between them.
pub open spec fn listed(problems: Seq<Seq<char>>) -> Seq<char> {
    crate::text::listed(problems, "; "@)
}

/// Puts a semicolon and a blank between texts.
pub fn list(problems: &Vec<String>) -> (s: String)
    ensures
        s@ == listed(crate::text::texts(problems@)),
{
    list_texts(problems, "; ")
}

/// Why a request is refused. `problem` is what is wrong with the request itself, `unsupported`
/// what its model does not support.
pub open spec fn request_refusal(
    request: VideoRequest,
    problem: Option<Seq<char>>,
    model_id: Seq<char>,
    unsupported: Seq<Seq<char>>,
) -> Option<Seq<char>> {
    if request.provider_id@ != OPENROUTER_PROVIDER_ID@ {
        Some("The request belongs to a different provider"@)
    } else if problem is Some {
        problem
    } else if unsupported.len() > 0 {
        Some(
            "OpenRouter model "@ + request.model@ + " does not support this request: "@ + listed(
                unsupported,
            ),
        )
    } else {
        reference_complaint(model_id, request)
    }
}

/// Checks a request against its model.
pub fn validate_against_model(
    request: &VideoRequest,
    problem: Option<String>,
    model_id: &str,
    unsupported: &Vec<String>,
) -> (r: Result<(), ProviderError>)
    ensures
        match r {
            Ok(_) => request_refusal(
                *request,
                crate::domain::opt_view(problem),
                model_id@,
                crate::text::texts(unsupported@),
            ) is None,
            Err(e) => request_refusal(
                *request,
                crate::domain::opt_view(problem),
                model_id@,
                crate::text::texts(unsupported@),
            ) matches Some(message) && e@ == refusal(message),
        },
{
    if let Err(e) = ensure_provider(request) {
        return Err(e);
    }
    if let Some(problem) = problem {
        return Err(validation(problem));
    }
    if unsupported.len() > 0 {
        let problems = list(unsupported);
        let head = concat3(
            "OpenRouter model ",
            request.model.as_str(),
            " does not support this request: ",
        );
        return Err(validation(concat(head.as_str(), problems.as_str())));
    }
    validate_reference_policy(model_id, request)
}

/// Whether a submission is checked against its model: one without media is not.
pub fn submission_needs_model(request: &VideoRequest) -> (b: bool)
    ensures
        b == (request.frame_images@.len() > 0 || request.input_references@.len() > 0),
{
    request.frame_images.len() > 0 || request.input_references.len() > 0
}

/// Refuses a submission whose deadline has come.
pub fn check_deadline(submit_before: Option<Timestamp>, now: Timestamp) -> (r: Result<
    (),
    ProviderError,
>)
    ensures
        r is Ok <==> !crate::providers::fal_transfer::too_late(submit_before, now),
        r matches Err(e) ==> e@ == refusal(
            "Review or staged input media expired before submission; Review again before generating"@,
        ),
{
    if let Some(deadline) = submit_before {
        if !now.is_before(deadline) {
            return Err(
                validation(
                    "Review or staged input media expired before submission; Review again before generating".to_owned(),
                ),
            );
        }
    }
    Ok(())
}

/// What the note on a price that is not fixed says.
pub const VARIABLE_COST_NOTE: &'static str =
    "; input media or provider-specific options can affect final usage, so the final charge is authoritative";

/// Marks a price as an estimate where the request has inputs whose price the catalog does not fix.
pub fn adjust_quote(quote: CostQuote, request: &VideoRequest) -> (adjusted: CostQuote)
    ensures
        if variable_cost(*request) && quote.amount is Some {
            adjusted == (CostQuote {
                exact: false,
                confidence: QuoteConfidence::Estimated,
                basis: adjusted.basis,
                ..quote
            }) && adjusted.basis@ == quote.basis@ + VARIABLE_COST_NOTE@
        } else {
            adjusted == quote
        },
{
    if request_has_variable_cost_inputs(request) && quote.amount.is_some() {
        let basis = concat(quote.basis.as_str(), VARIABLE_COST_NOTE);
        CostQuote { exact: false, confidence: QuoteConfidence::Estimated, basis, ..quote }
    } else {
        quote
    }
}

/// The URL at which OpenRouter reports on a job.
pub fn polling_url(locator: &JobLocator) -> (r: Result<String, ProviderError>)
    ensures
        match locator@ {
            LocatorView::OpenRouter { polling_url } => r matches Ok(url) && url@ == polling_url,
            LocatorView::Fal { .. } => r matches Err(e) && e@ == refusal(
                "OpenRouter cannot poll a locator owned by another provider"@,
            ),
        },
{
    match locator {
        JobLocator::OpenRouter { polling_url } => Ok(polling_url.clone()),
        JobLocator::Fal { .. } => Err(
            validation("OpenRouter cannot poll a locator owned by another provider".to_owned()),
        ),
    }
}

/// Whether a job is finished without a video listed.
pub open spec fn lacks_artifact(job: VideoJob) -> bool {
    job.status@ == StatusView::Completed && job.artifacts@.len() == 0
}

/// Adds the first video of a finished job that lists none. `content_url` is the URL at which it is
/// to be had, or what is wrong with that URL.
pub fn with_artifact(job: VideoJob, content_url: Result<String, String>) -> (r: Result<
    VideoJob,
    ProviderError,
>)
    ensures
        if lacks_artifact(job) {
            match content_url {
                Ok(url) => {
                    &&& r matches Ok(out)
                    &&& out == (VideoJob { artifacts: out.artifacts, ..job })
                    &&& out.artifacts@.len() == 1
                    &&& out.artifacts@[0].url@ == url@
                    &&& out.artifacts@[0].index == 0
                    &&& out.artifacts@[0].content_type is None
                },
                Err(problem) => r matches Err(e) && e@ == crate::providers::plain_failure(
                    OPENROUTER_PROVIDER_ID@,
                    ProviderErrorKind::Response,
                    problem@,
                ),
            }
        } else {
            r == Ok::<VideoJob, ProviderError>(job)
        },
{
    if !matches!(job.status, JobStatus::Completed) || job.artifacts.len() > 0 {
        return Ok(job);
    }
    match content_url {
        Ok(url) => {
            let mut artifacts: Vec<VideoArtifact> = Vec::new();
            artifacts.push(VideoArtifact { url, index: 0, content_type: None });
            Ok(VideoJob { artifacts, ..job })
        },
        Err(problem) => Err(
            ProviderError::new(ProviderId::openrouter(), ProviderErrorKind::Response, problem),
        ),
    }
}

/// What kind of failure OpenRouter's client reports.
#[derive(Debug, Clone, Copy, PartialEq, Eq, Structural)]
pub enum ApiErrorKind {
    Authentication,
    InsufficientCredits,
    RequestValidation,
    ResourceNotFound,
    ContentPolicy,
    RateLimit,
    Provider,
    Network,
    SubmissionUncertain,
    ResponseFormat,
    UnsafeUrl,
    Download,
    Configuration,
}

/// The kind of provider failure that a failure of the client is.
pub open spec fn provider_kind(kind: ApiErrorKind) -> ProviderErrorKind {
    match kind {
        ApiErrorKind::Authentication => ProviderErrorKind::Authentication,
        ApiErrorKind::InsufficientCredits => ProviderErrorKind::InsufficientCredits,
        ApiErrorKind::RequestValidation => ProviderErrorKind::Validation,
        ApiErrorKind::ResourceNotFound => ProviderErrorKind::Validation,
        ApiErrorKind::ContentPolicy => ProviderErrorKind::ContentPolicy,
        ApiErrorKind::RateLimit => ProviderErrorKind::RateLimit,
        ApiErrorKind::Provider => ProviderErrorKind::Unavailable,
        ApiErrorKind::Network => ProviderErrorKind::Network,
        ApiErrorKind::SubmissionUncertain => ProviderErrorKind::SubmissionUncertain,
        ApiErrorKind::ResponseFormat => ProviderErrorKind::Response,
        ApiErrorKind::UnsafeUrl => ProviderErrorKind::UnsafeEndpoint,
        ApiErrorKind::Download => ProviderErrorKind::Download,
        ApiErrorKind::Configuration => ProviderErrorKind::Configuration,
    }
}

/// A failure that OpenRouter's client reports.
#[derive(Debug)]
pub struct ApiError {
    pub kind: ApiErrorKind,
    pub message: String,
    pub status_code: Option<u16>,
    pub code: Option<String>,
    pub details: Json,
    pub retry_after_seconds: Option<u64>,
}

/// The provider failure that a failure of the client is.
pub fn map_error(error: ApiError) -> (e: ProviderError)
    ensures
        e.provider_id@ == OPENROUTER_PROVIDER_ID@,
        e.kind == provider_kind(error.kind),
        e.message == error.message,
        e.status_code == error.status_code,
        e.code == error.code,
        e.details == error.details,
        e.retry_after_seconds == error.retry_after_seconds,
{
    let kind = match error.kind {
        ApiErrorKind::Authentication => ProviderErrorKind::Authentication,
        ApiErrorKind::InsufficientCredits => ProviderErrorKind::InsufficientCredits,
        ApiErrorKind::RequestValidation => ProviderErrorKind::Validation,
        ApiErrorKind::ResourceNotFound => ProviderErrorKind::Validation,
        ApiErrorKind::ContentPolicy => ProviderErrorKind::ContentPolicy,
        ApiErrorKind::RateLimit => ProviderErrorKind::RateLimit,
        ApiErrorKind::Provider => ProviderErrorKind::Unavailable,
        ApiErrorKind::Network => ProviderErrorKind::Network,
        ApiErrorKind::SubmissionUncertain => ProviderErrorKind::SubmissionUncertain,
        ApiErrorKind::ResponseFormat => ProviderErrorKind::Response,
        ApiErrorKind::UnsafeUrl => ProviderErrorKind::UnsafeEndpoint,
        ApiErrorKind::Download => ProviderErrorKind::Download,
        ApiErrorKind::Configuration => ProviderErrorKind::Configuration,
    };
    ProviderError {
        provider_id: ProviderId::openrouter(),
        kind,
        message: error.message,
        status_code: error.status_code,
        code: error.code,
        details: error.details,
        retry_after_seconds: error.retry_after_seconds,
    }
}

/// A submission whose outcome the client does not know stays one that is not repeated.
pub proof fn uncertainty_survives_mapping(kind: ApiErrorKind)
    ensures
        (provider_kind(kind) == ProviderErrorKind::SubmissionUncertain) == (kind
            == ApiErrorKind::SubmissionUncertain),
{
}

/// Reads the URL of a finished video.
pub fn read_artifact_url(value: &str) -> (r: Result<String, ProviderError>)
    ensures
        match crate::outside::url_of(value@) {
            Some(url) => r matches Ok(text) && text@ == url.text,
            None => r matches Err(e) && e@ == crate::providers::plain_failure(
                OPENROUTER_PROVIDER_ID@,
                ProviderErrorKind::UnsafeEndpoint,
                "OpenRouter returned an invalid artifact URL"@,
            ),
        },
{
    match read_url(value) {
        Some(url) => Ok(url.text),
        None => Err(
            ProviderError::new(
                ProviderId::openrouter(),
                ProviderErrorKind::UnsafeEndpoint,
                "OpenRouter returned an invalid artifact URL".to_owned(),
            ),
        ),
    }
}

} // verus!
