//! Where fal.ai is reached: the provider's set-up, the URLs that it asks, and the checks on the
//! URLs that it is given.

use crate::domain::{JobLocator, LocatorView};
use crate::outside::{join_url, read_url};
use crate::paths::join_slashed;
use crate::providers::fal::{failure, validation};
use crate::providers::{ProviderError, ProviderErrorKind};
use crate::text::{chars_of, concat, concat3, is_white_space, same_text, trim_text};
use crate::urls::{
    extend_url, split_slashes, trim_end_slashes, trim_slashes, with_path, UrlParts, UrlView,
};
use vstd::prelude::*;

verus! {

pub const DEFAULT_PLATFORM_URL: &'static str = "https://api.fal.ai/v1";

pub const DEFAULT_QUEUE_URL: &'static str = "https://queue.fal.run";

pub const DEFAULT_STORAGE_URL: &'static str = "https://rest.fal.ai";

/// A set-up that cannot work.
pub(crate) fn configuration(message: &str) -> (e: ProviderError)
    ensures
        e@ == crate::providers::fal::fal_failure(ProviderErrorKind::Configuration, message@),
{
    failure(ProviderErrorKind::Configuration, message.to_owned())
}

/// A URL that must not be used.
pub(crate) fn unsafe_endpoint(message: &str) -> (e: ProviderError)
    ensures
        e@ == crate::providers::fal::fal_failure(ProviderErrorKind::UnsafeEndpoint, message@),
{
    failure(ProviderErrorKind::UnsafeEndpoint, message.to_owned())
}

/// How fal.ai is reached.
#[derive(Debug)]
pub struct FalOptions {
    pub platform_base_url: String,
    pub queue_base_url: String,
    pub storage_base_url: String,
    pub timeout_seconds: u64,
    pub max_retries: usize,
    pub backoff_base_seconds: u64,
}

impl Default for FalOptions {
    fn default() -> (options: FalOptions)
        ensures
            options.platform_base_url@ == DEFAULT_PLATFORM_URL@,
            options.queue_base_url@ == DEFAULT_QUEUE_URL@,
            options.storage_base_url@ == DEFAULT_STORAGE_URL@,
            options.timeout_seconds == 60,
            options.max_retries == 3,
            options.backoff_base_seconds == 1,
    {
        FalOptions {
            platform_base_url: DEFAULT_PLATFORM_URL.to_owned(),
            queue_base_url: DEFAULT_QUEUE_URL.to_owned(),
            storage_base_url: DEFAULT_STORAGE_URL.to_owned(),
            timeout_seconds: 60,
            max_retries: 3,
            backoff_base_seconds: 1,
        }
    }
}

/// Whether a text can be an API key: it is not empty and holds no white space.
pub open spec fn usable_key(key: Seq<char>) -> bool {
    key.len() > 0 && forall|i: int| 0 <= i < key.len() ==> !crate::text::white_space(#[trigger] key[i])
}

fn is_usable_key(key: &str) -> (b: bool)
    ensures
        b == usable_key(key@),
{
    let chars = chars_of(key);
    let mut i: usize = 0;
    while i < chars.len()
        invariant
            i <= chars@.len(),
            chars@ == key@,
            forall|j: int| 0 <= j < i ==> !crate::text::white_space(#[trigger] key@[j]),
        decreases chars@.len() - i,
    {
        if is_white_space(chars[i]) {
            return false;
        }
        i = i + 1;
    }
    chars.len() > 0
}

/// Whether a URL may be a base: plain HTTPS without credentials, query or fragment.
pub open spec fn usable_base(url: UrlView) -> bool {
    url.plain_https() && !url.has_query && !url.has_fragment
}

/// Checks that a URL may be a base.
pub fn validate_base(url: &UrlParts, label: &str) -> (r: Result<(), ProviderError>)
    ensures
        r is Ok <==> usable_base(url@),
        r matches Err(e) ==> e@ == crate::providers::fal::fal_failure(
            ProviderErrorKind::Configuration,
            label@ + " must be a plain HTTPS URL"@,
        ),
{
    if !url.is_plain_https() || url.has_query || url.has_fragment {
        let message = concat(label, " must be a plain HTTPS URL");
        return Err(configuration(message.as_str()));
    }
    Ok(())
}

/// Whether the three bases are those that credentials may be sent to.
pub open spec fn trusted_hosts(platform: UrlView, queue: UrlView, storage: UrlView) -> bool {
    platform.at_host("api.fal.ai"@) && queue.at_host("queue.fal.run"@) && storage.at_host(
        "rest.fal.ai"@,
    )
}

/// What is wrong with the three bases.
pub open spec fn base_complaint(platform: UrlView, queue: UrlView, storage: UrlView) -> Option<
    Seq<char>,
> {
    if !usable_base(platform) {
        Some("fal platform URL"@ + " must be a plain HTTPS URL"@)
    } else if !usable_base(queue) {
        Some("fal queue URL"@ + " must be a plain HTTPS URL"@)
    } else if !usable_base(storage) {
        Some("fal storage URL"@ + " must be a plain HTTPS URL"@)
    } else if !trusted_hosts(platform, queue, storage) {
        Some("fal credentials may only be sent to api.fal.ai, queue.fal.run, and rest.fal.ai"@)
    } else {
        None
    }
}

/// Checks the three bases.
pub fn validate_bases(platform: &UrlParts, queue: &UrlParts, storage: &UrlParts) -> (r: Result<
    (),
    ProviderError,
>)
    ensures
        match r {
            Ok(_) => base_complaint(platform@, queue@, storage@) is None,
            Err(e) => base_complaint(platform@, queue@, storage@) matches Some(message) && e@
                == crate::providers::fal::fal_failure(ProviderErrorKind::Configuration, message),
        },
{
    if let Err(e) = validate_base(platform, "fal platform URL") {
        return Err(e);
    }
    if let Err(e) = validate_base(queue, "fal queue URL") {
        return Err(e);
    }
    if let Err(e) = validate_base(storage, "fal storage URL") {
        return Err(e);
    }
    if !platform.is_at_host("api.fal.ai") || !queue.is_at_host("queue.fal.run")
        || !storage.is_at_host("rest.fal.ai") {
        return Err(
            configuration(
                "fal credentials may only be sent to api.fal.ai, queue.fal.run, and rest.fal.ai",
            ),
        );
    }
    Ok(())
}

/// Credentials go to no host but fal.ai's own three.
pub proof fn accepted_bases_are_fal_hosts(platform: UrlView, queue: UrlView, storage: UrlView)
    requires
        base_complaint(platform, queue, storage) is None,
    ensures
        platform.scheme == "https"@ && platform.host == Some("api.fal.ai"@),
        queue.scheme == "https"@ && queue.host == Some("queue.fal.run"@),
        storage.scheme == "https"@ && storage.host == Some("rest.fal.ai"@),
{
}

/// A base URL whose path does not end in slashes.
pub open spec fn normalized_base(url: UrlView) -> Option<Seq<char>> {
    crate::urls::url_with_path(url.text, crate::urls::without_end_slashes(url.path))
}

/// Strips the slashes at the end of a base URL's path.
pub fn normalize_base(url: &UrlParts) -> (r: Option<String>)
    ensures
        crate::domain::opt_view(r) == normalized_base(url@),
{
    let path = trim_end_slashes(url.path.as_str());
    with_path(url.text.as_str(), path.as_str())
}

/// What of the provider's set-up is refused.
pub open spec fn setup_complaint(
    key: Seq<char>,
    platform: Option<UrlView>,
    queue: Option<UrlView>,
    storage: Option<UrlView>,
) -> Option<Seq<char>> {
    if !usable_key(key) {
        Some("A valid fal API key is required"@)
    } else {
        match (platform, queue, storage) {
            (Some(p), Some(q), Some(s)) => match base_complaint(p, q, s) {
                Some(message) => Some(message),
                None => if normalized_base(p) is Some && normalized_base(q) is Some
                    && normalized_base(s) is Some {
                    None
                } else {
                    Some("Invalid fal base URL"@)
                },
            },
            _ => Some("Invalid fal base URL"@),
        }
    }
}

/// Access to fal.ai with an API key.
pub struct FalProvider {
    api_key: String,
    options: FalOptions,
}

impl FalProvider {
    /// The API key.
    pub closed spec fn key(self) -> Seq<char> {
        self.api_key@
    }

    /// How fal.ai is reached.
    pub closed spec fn spec_options(self) -> FalOptions {
        self.options
    }

    /// Sets the provider up. The key is trimmed and the bases lose the slashes at their end.
    pub fn with_options(api_key: &str, options: FalOptions) -> (r: Result<
        FalProvider,
        ProviderError,
    >)
        ensures
            ({
                let key = crate::text::trimmed(api_key@);
                let platform = crate::outside::url_of(options.platform_base_url@);
                let queue = crate::outside::url_of(options.queue_base_url@);
                let storage = crate::outside::url_of(options.storage_base_url@);
                match r {
                    Ok(provider) => {
                        &&& setup_complaint(key, platform, queue, storage) is None
                        &&& provider.key() == key
                        &&& normalized_base(platform->0) == Some(
                            provider.spec_options().platform_base_url@,
                        )
                        &&& normalized_base(queue->0) == Some(
                            provider.spec_options().queue_base_url@,
                        )
                        &&& normalized_base(storage->0) == Some(
                            provider.spec_options().storage_base_url@,
                        )
                        &&& provider.spec_options().timeout_seconds == options.timeout_seconds
                        &&& provider.spec_options().max_retries == options.max_retries
                        &&& provider.spec_options().backoff_base_seconds
                            == options.backoff_base_seconds
                    },
                    Err(e) => setup_complaint(key, platform, queue, storage) matches Some(message)
                        && e@ == crate::providers::fal::fal_failure(ProviderErrorKind::Configuration, message),
                }
            }),
    {
        let key = trim_text(api_key);
        if !is_usable_key(key) {
            return Err(configuration("A valid fal API key is required"));
        }
        let platform = read_url(options.platform_base_url.as_str());
        let queue = read_url(options.queue_base_url.as_str());
        let storage = read_url(options.storage_base_url.as_str());
        match (platform, queue, storage) {
            (Some(p), Some(q), Some(s)) => {
                if let Err(e) = validate_bases(&p, &q, &s) {
                    return Err(e);
                }
                match (normalize_base(&p), normalize_base(&q), normalize_base(&s)) {
                    (
                        Some(platform_base_url),
                        Some(queue_base_url),
                        Some(storage_base_url),
                    ) => Ok(
                        FalProvider {
                            api_key: key.to_owned(),
                            options: FalOptions {
                                platform_base_url,
                                queue_base_url,
                                storage_base_url,
                                timeout_seconds: options.timeout_seconds,
                                max_retries: options.max_retries,
                                backoff_base_seconds: options.backoff_base_seconds,
                            },
                        },
                    ),
                    _ => Err(configuration("Invalid fal base URL")),
                }
            },
            _ => Err(configuration("Invalid fal base URL")),
        }
    }

    /// How fal.ai is reached.
    pub fn options(&self) -> (options: &FalOptions)
        ensures
            *options == self.spec_options(),
    {
        &self.options
    }

    /// The API key, for the request that needs it.
    pub fn expose_key(&self) -> (key: &str)
        ensures
            key@ == self.key(),
    {
        self.api_key.as_str()
    }

    /// The URL of a page of the models of a category.
    pub fn page_url(&self, category: &str, cursor: &Option<String>) -> (r: Result<
        String,
        ProviderError,
    >)
        ensures
            built(
                r,
                self.spec_options().platform_base_url@,
                seq!["models"@],
                page_names(cursor is Some),
                page_values(category@, crate::domain::opt_view(*cursor)),
            ),
    {
        let segments: Vec<String> = vec!["models".to_owned()];
        let mut names: Vec<String> = vec![
            "category".to_owned(),
            "status".to_owned(),
            "limit".to_owned(),
        ];
        let mut values: Vec<String> = vec![
            category.to_owned(),
            "active".to_owned(),
            "50".to_owned(),
        ];
        if let Some(cursor) = cursor {
            names.push("cursor".to_owned());
            values.push(cursor.clone());
        }
        assert(crate::text::texts(segments@) =~= seq!["models"@]);
        assert(crate::text::texts(names@) =~= page_names(cursor is Some));
        assert(crate::text::texts(values@) =~= page_values(
            category@,
            crate::domain::opt_view(*cursor),
        ));
        build(self.options.platform_base_url.as_str(), &segments, &names, &values)
    }

    /// The URL at which the schemas of some models are looked up.
    pub fn schema_url(&self, ids: &Vec<String>) -> (r: Result<String, ProviderError>)
        ensures
            built(
                r,
                self.spec_options().platform_base_url@,
                seq!["models"@],
                seq!["expand"@] + Seq::new(ids@.len(), |i: int| "endpoint_id"@),
                seq!["openapi-3.0"@] + crate::text::texts(ids@),
            ),
    {
        let segments: Vec<String> = vec!["models".to_owned()];
        let mut names: Vec<String> = vec!["expand".to_owned()];
        let mut values: Vec<String> = vec!["openapi-3.0".to_owned()];
        let mut i: usize = 0;
        while i < ids.len()
            invariant
                i <= ids@.len(),
                names@.len() == i + 1,
                values@.len() == i + 1,
                names@[0]@ == "expand"@,
                values@[0]@ == "openapi-3.0"@,
                forall|j: int| 1 <= j <= i ==> (#[trigger] names@[j])@ == "endpoint_id"@,
                forall|j: int| 1 <= j <= i ==> (#[trigger] values@[j])@ == ids@[j - 1]@,
            decreases ids@.len() - i,
        {
            names.push("endpoint_id".to_owned());
            values.push(ids[i].clone());
            i = i + 1;
        }
        assert(crate::text::texts(segments@) =~= seq!["models"@]);
        assert(crate::text::texts(names@) =~= seq!["expand"@] + Seq::new(
            ids@.len(),
            |i: int| "endpoint_id"@,
        ));
        assert(crate::text::texts(values@) =~= seq!["openapi-3.0"@] + crate::text::texts(ids@));
        build(self.options.platform_base_url.as_str(), &segments, &names, &values)
    }

    /// The URL at which one model is looked up.
    pub fn model_url(&self, model_id: &str) -> (r: Result<String, ProviderError>)
        ensures
            built(
                r,
                self.spec_options().platform_base_url@,
                seq!["models"@],
                seq!["endpoint_id"@, "expand"@],
                seq![model_id@, "openapi-3.0"@],
            ),
    {
        let segments: Vec<String> = vec!["models".to_owned()];
        let names: Vec<String> = vec!["endpoint_id".to_owned(), "expand".to_owned()];
        let values: Vec<String> = vec![model_id.to_owned(), "openapi-3.0".to_owned()];
        assert(crate::text::texts(segments@) =~= seq!["models"@]);
        assert(crate::text::texts(names@) =~= seq!["endpoint_id"@, "expand"@]);
        assert(crate::text::texts(values@) =~= seq![model_id@, "openapi-3.0"@]);
        build(self.options.platform_base_url.as_str(), &segments, &names, &values)
    }

    /// The URL that tells whether the API key works.
    pub fn credentials_url(&self) -> (r: Result<String, ProviderError>)
        ensures
            built(
                r,
                self.spec_options().platform_base_url@,
                seq!["models"@],
                seq!["limit"@],
                seq!["1"@],
            ),
    {
        let segments: Vec<String> = vec!["models".to_owned()];
        let names: Vec<String> = vec!["limit".to_owned()];
        let values: Vec<String> = vec!["1".to_owned()];
        assert(crate::text::texts(segments@) =~= seq!["models"@]);
        assert(crate::text::texts(names@) =~= seq!["limit"@]);
        assert(crate::text::texts(values@) =~= seq!["1"@]);
        build(self.options.platform_base_url.as_str(), &segments, &names, &values)
    }

    /// The URL of a model's prices.
    pub fn pricing_url(&self, model_id: &str) -> (r: Result<String, ProviderError>)
        ensures
            built(
                r,
                self.spec_options().platform_base_url@,
                seq!["models"@, "pricing"@],
                seq!["endpoint_id"@],
                seq![model_id@],
            ),
    {
        let segments: Vec<String> = vec!["models".to_owned(), "pricing".to_owned()];
        let names: Vec<String> = vec!["endpoint_id".to_owned()];
        let values: Vec<String> = vec![model_id.to_owned()];
        assert(crate::text::texts(segments@) =~= seq!["models"@, "pricing"@]);
        assert(crate::text::texts(names@) =~= seq!["endpoint_id"@]);
        assert(crate::text::texts(values@) =~= seq![model_id@]);
        build(self.options.platform_base_url.as_str(), &segments, &names, &values)
    }

    /// The URL at which an upload is announced.
    pub fn upload_url(&self, multipart: bool) -> (r: Result<String, ProviderError>)
        ensures
            built(
                r,
                self.spec_options().storage_base_url@,
                seq![
                    "storage"@,
                    "upload"@,
                    if multipart {
                        "initiate-multipart"@
                    } else {
                        "initiate"@
                    },
                ],
                seq!["storage_type"@],
                seq!["fal-cdn-v3"@],
            ),
    {
        let endpoint = if multipart {
            "initiate-multipart"
        } else {
            "initiate"
        };
        let segments: Vec<String> = vec![
            "storage".to_owned(),
            "upload".to_owned(),
            endpoint.to_owned(),
        ];
        let names: Vec<String> = vec!["storage_type".to_owned()];
        let values: Vec<String> = vec!["fal-cdn-v3".to_owned()];
        assert(crate::text::texts(segments@) =~= seq!["storage"@, "upload"@, endpoint@]);
        assert(crate::text::texts(names@) =~= seq!["storage_type"@]);
        assert(crate::text::texts(values@) =~= seq!["fal-cdn-v3"@]);
        build(self.options.storage_base_url.as_str(), &segments, &names, &values)
    }

    /// A URL of the queue: the endpoint's parts, then the suffix.
    pub fn queue_url(&self, endpoint_id: &str, suffix: Vec<String>) -> (r: Result<
        String,
        ProviderError,
    >)
        ensures
            built(
                r,
                self.spec_options().queue_base_url@,
                crate::urls::slash_parts(endpoint_id@) + crate::text::texts(suffix@),
                Seq::empty(),
                Seq::empty(),
            ),
    {
        let mut segments = split_slashes(endpoint_id);
        let ghost parts = crate::text::texts(segments@);
        let mut rest = suffix;
        segments.append(&mut rest);
        let names: Vec<String> = Vec::new();
        let values: Vec<String> = Vec::new();
        assert(crate::text::texts(segments@) =~= parts + crate::text::texts(suffix@));
        assert(crate::text::texts(names@) =~= Seq::<Seq<char>>::empty());
        build(self.options.queue_base_url.as_str(), &segments, &names, &values)
    }
}

/// The names of the pairs that ask for a page.
pub open spec fn page_names(more: bool) -> Seq<Seq<char>> {
    if more {
        seq!["category"@, "status"@, "limit"@, "cursor"@]
    } else {
        seq!["category"@, "status"@, "limit"@]
    }
}

/// The values of the pairs that ask for a page.
pub open spec fn page_values(category: Seq<char>, cursor: Option<Seq<char>>) -> Seq<Seq<char>> {
    match cursor {
        Some(cursor) => seq![category, "active"@, "50"@, cursor],
        None => seq![category, "active"@, "50"@],
    }
}

/// Whether `r` is the URL that the parts make.
pub open spec fn built(
    r: Result<String, ProviderError>,
    base: Seq<char>,
    segments: Seq<Seq<char>>,
    names: Seq<Seq<char>>,
    values: Seq<Seq<char>>,
) -> bool {
    match r {
        Ok(url) => crate::urls::extended_url(base, segments, names, values) == Some(url@),
        Err(e) => crate::urls::extended_url(base, segments, names, values) is None && e@
            == crate::providers::fal::fal_failure(ProviderErrorKind::Configuration, "Invalid fal base URL"@),
    }
}

fn build(base: &str, segments: &Vec<String>, names: &Vec<String>, values: &Vec<String>) -> (r:
    Result<String, ProviderError>)
    requires
        names@.len() == values@.len(),
    ensures
        built(
            r,
            base@,
            crate::text::texts(segments@),
            crate::text::texts(names@),
            crate::text::texts(values@),
        ),
{
    match extend_url(base, segments, names, values) {
        Some(url) => Ok(url),
        None => Err(configuration("Invalid fal base URL")),
    }
}

/// Checks that a video may be fetched from a URL.
pub fn validate_download_url(url: &UrlParts) -> (r: Result<(), ProviderError>)
    ensures
        r is Ok <==> url@.plain_https(),
        r matches Err(e) ==> e@ == crate::providers::fal::fal_failure(
            ProviderErrorKind::UnsafeEndpoint,
            "Video URL must be public HTTPS without credentials"@,
        ),
{
    if !url.is_plain_https() {
        return Err(unsafe_endpoint("Video URL must be public HTTPS without credentials"));
    }
    Ok(())
}

/// What is wrong with a URL that media is to be uploaded to.
pub open spec fn upload_complaint(url: UrlView) -> Option<Seq<char>> {
    if !url.plain_https() || url.has_fragment {
        Some("fal CDN upload URL must be public HTTPS without credentials"@)
    } else if url.local_host() {
        Some("fal CDN returned a local upload host"@)
    } else if url.unroutable() {
        Some("fal CDN returned a non-public upload host"@)
    } else {
        None
    }
}

/// Checks that media may be uploaded to a URL.
pub fn validate_upload_url(url: &UrlParts) -> (r: Result<(), ProviderError>)
    ensures
        match r {
            Ok(_) => upload_complaint(url@) is None,
            Err(e) => upload_complaint(url@) matches Some(message) && e@ == crate::providers::fal::fal_failure(
                ProviderErrorKind::UnsafeEndpoint,
                message,
            ),
        },
{
    if !url.is_plain_https() || url.has_fragment {
        return Err(unsafe_endpoint("fal CDN upload URL must be public HTTPS without credentials"));
    }
    if url.is_local_host() {
        return Err(unsafe_endpoint("fal CDN returned a local upload host"));
    }
    if url.is_unroutable() {
        return Err(unsafe_endpoint("fal CDN returned a non-public upload host"));
    }
    Ok(())
}

/// The path of a part of an upload.
pub open spec fn child_path(path: Seq<char>, suffix: Seq<char>) -> Seq<char> {
    crate::urls::without_end_slashes(path) + "/"@ + suffix
}

/// The URL of a part of an upload.
pub fn upload_child_url(base: &UrlParts, suffix: &str) -> (r: Result<String, ProviderError>)
    ensures
        match r {
            Ok(url) => upload_complaint(base@) is None && crate::urls::url_with_path(
                base.text@,
                child_path(base.path@, suffix@),
            ) == Some(url@),
            Err(e) => match upload_complaint(base@) {
                Some(message) => e@ == crate::providers::fal::fal_failure(ProviderErrorKind::UnsafeEndpoint, message),
                None => crate::urls::url_with_path(base.text@, child_path(base.path@, suffix@)) is None
                    && e@ == crate::providers::fal::fal_failure(
                    ProviderErrorKind::UnsafeEndpoint,
                    "fal returned an invalid CDN upload URL"@,
                ),
            },
        },
{
    if let Err(e) = validate_upload_url(base) {
        return Err(e);
    }
    let trimmed = trim_end_slashes(base.path.as_str());
    let path = concat3(trimmed.as_str(), "/", suffix);
    match with_path(base.text.as_str(), path.as_str()) {
        Some(url) => Ok(url),
        None => Err(unsafe_endpoint("fal returned an invalid CDN upload URL")),
    }
}

/// Where a redirect leads: a URL that a video may be fetched from, or why it must not be followed.
pub open spec fn redirect_target(target: Option<UrlView>) -> Result<Seq<char>, Seq<char>> {
    match target {
        Some(url) => if url.plain_https() {
            Ok(url.text)
        } else {
            Err("Video URL must be public HTTPS without credentials"@)
        },
        None => Err("Unsafe video redirect"@),
    }
}

/// The URL that a text and a reference from it resolve to.
pub open spec fn resolved(base: Seq<char>, location: Seq<char>) -> Option<UrlView> {
    match crate::outside::joined_of(base, location) {
        Some(text) => crate::outside::url_of(text),
        None => None,
    }
}

/// Follows a redirect from `base` to `location`.
pub fn follow_redirect(base: &str, location: &str) -> (r: Result<String, ProviderError>)
    ensures
        match r {
            Ok(url) => redirect_target(resolved(base@, location@)) == Ok::<Seq<char>, Seq<char>>(
                url@,
            ),
            Err(e) => redirect_target(resolved(base@, location@)) matches Err(message) && e@
                == crate::providers::fal::fal_failure(ProviderErrorKind::UnsafeEndpoint, message),
        },
{
    match join_url(base, location) {
        Some(text) => match read_url(text.as_str()) {
            Some(url) => {
                if let Err(e) = validate_download_url(&url) {
                    return Err(e);
                }
                Ok(url.text)
            },
            None => Err(unsafe_endpoint("Unsafe video redirect")),
        },
        None => Err(unsafe_endpoint("Unsafe video redirect")),
    }
}

/// The non-empty ones of some texts.
pub open spec fn nonempty(list: Seq<Seq<char>>) -> Seq<Seq<char>>
    decreases list.len(),
{
    if list.len() == 0 {
        list
    } else if list.last().len() > 0 {
        nonempty(list.drop_last()).push(list.last())
    } else {
        nonempty(list.drop_last())
    }
}

fn keep_nonempty(list: &Vec<String>) -> (kept: Vec<String>)
    ensures
        crate::text::texts(kept@) == nonempty(crate::text::texts(list@)),
{
    let ghost view = crate::text::texts(list@);
    let mut kept: Vec<String> = Vec::new();
    let mut i: usize = 0;
    assert(view.take(0) =~= Seq::<Seq<char>>::empty());
    assert(crate::text::texts(kept@) =~= Seq::<Seq<char>>::empty());
    while i < list.len()
        invariant
            i <= list@.len(),
            view == crate::text::texts(list@),
            crate::text::texts(kept@) == nonempty(view.take(i as int)),
        decreases list@.len() - i,
    {
        assert(view.take(i + 1).drop_last() =~= view.take(i as int));
        assert(view.take(i + 1).last() == list@[i as int]@);
        let ghost before = crate::text::texts(kept@);
        if !list[i].as_str().is_empty() {
            kept.push(list[i].clone());
            assert(crate::text::texts(kept@) =~= before.push(list@[i as int]@));
        }
        i = i + 1;
    }
    assert(view.take(view.len() as int) =~= view);
    kept
}

/// The first position of `text` in a list.
pub open spec fn first_position(list: Seq<Seq<char>>, text: Seq<char>) -> Option<nat>
    decreases list.len(),
{
    if list.len() == 0 {
        None
    } else if list[0] == text {
        Some(0)
    } else {
        match first_position(list.skip(1), text) {
            Some(n) => Some(n + 1),
            None => None,
        }
    }
}

fn position_of(list: &Vec<String>, text: &str) -> (r: Option<usize>)
    ensures
        match r {
            Some(n) => n < list@.len() && first_position(crate::text::texts(list@), text@) == Some(
                n as nat,
            ),
            None => first_position(crate::text::texts(list@), text@) is None,
        },
{
    let ghost view = crate::text::texts(list@);
    let mut i: usize = 0;
    assert(view.skip(0) =~= view);
    while i < list.len()
        invariant
            i <= list@.len(),
            view == crate::text::texts(list@),
            first_position(view, text@) == match first_position(view.skip(i as int), text@) {
                Some(n) => Some(n + i as nat),
                None => None::<nat>,
            },
        decreases list@.len() - i,
    {
        assert(view.skip(i as int)[0] == list@[i as int]@);
        if same_text(list[i].as_str(), text) {
            return Some(i);
        }
        assert(view.skip(i as int).skip(1) =~= view.skip(i + 1));
        i = i + 1;
    }
    None
}

/// The job that a queue URL names, or what is wrong with the URL.
pub open spec fn imported(url: UrlView) -> Result<LocatorView, (ProviderErrorKind, Seq<char>)> {
    if url.scheme != "https"@ || !url.at_host("queue.fal.run"@) || url.username.len() > 0
        || url.has_password {
        Err(
            (
                ProviderErrorKind::UnsafeEndpoint,
                "fal imports must use an HTTPS queue.fal.run URL"@,
            ),
        )
    } else {
        let parts = match url.segments {
            Some(list) => nonempty(list),
            None => Seq::empty(),
        };
        match first_position(parts, "requests"@) {
            None => Err(
                (
                    ProviderErrorKind::Validation,
                    "fal queue URL is missing /requests/{request_id}"@,
                ),
            ),
            Some(at) => if at == 0 || at >= parts.len() - 1 {
                Err(
                    (
                        ProviderErrorKind::Validation,
                        "fal queue URL is missing an endpoint or request id"@,
                    ),
                )
            } else {
                let suffix = parts.skip(at as int + 2);
                if suffix == Seq::<Seq<char>>::empty() || suffix == seq!["status"@] || suffix
                    == seq!["response"@] {
                    Ok(
                        LocatorView::Fal {
                            endpoint_id: crate::paths::slashed(parts.take(at as int)),
                            request_id: parts[at as int + 1],
                            status_url: if suffix == seq!["status"@] {
                                Some(url.text)
                            } else {
                                None
                            },
                            response_url: if suffix == seq!["response"@] {
                                Some(url.text)
                            } else {
                                None
                            },
                        },
                    )
                } else {
                    Err(
                        (
                            ProviderErrorKind::Validation,
                            "fal queue URL has an unknown request suffix"@,
                        ),
                    )
                }
            },
        }
    }
}

/// Reads the job out of a queue, status or result URL.
pub fn import_locator_from(url: &UrlParts) -> (r: Result<JobLocator, ProviderError>)
    ensures
        match r {
            Ok(locator) => imported(url@) == Ok::<LocatorView, (ProviderErrorKind, Seq<char>)>(
                locator@,
            ),
            Err(e) => imported(url@) matches Err((kind, message)) && e@ == crate::providers::fal::fal_failure(
                kind,
                message,
            ),
        },
{
    if !same_text(url.scheme.as_str(), "https") || !url.is_at_host("queue.fal.run")
        || !url.username.as_str().is_empty() || url.has_password {
        return Err(unsafe_endpoint("fal imports must use an HTTPS queue.fal.run URL"));
    }
    let none: Vec<String> = Vec::new();
    let parts = match &url.segments {
        Some(list) => keep_nonempty(list),
        None => none,
    };
    let ghost view = crate::text::texts(parts@);
    assert(url@.segments is None ==> view =~= Seq::<Seq<char>>::empty());
    let at: usize = match position_of(&parts, "requests") {
        Some(at) => at,
        None => {
            return Err(validation("fal queue URL is missing /requests/{request_id}"));
        },
    };
    if at == 0 || at >= parts.len() - 1 {
        return Err(validation("fal queue URL is missing an endpoint or request id"));
    }
    let rest: usize = parts.len() - (at + 1) - 1;
    let ghost suffix = view.skip(at + 2);
    assert(suffix.len() == rest);
    let status = rest == 1 && same_text(parts[at + 2].as_str(), "status");
    let response = rest == 1 && same_text(parts[at + 2].as_str(), "response");
    proof {
        if rest == 1 {
            assert(suffix[0] == parts@[at + 2]@);
        }
        assert(status ==> suffix =~= seq!["status"@]);
        assert(response ==> suffix =~= seq!["response"@]);
        assert(rest == 0 ==> suffix =~= Seq::<Seq<char>>::empty());
        assert(suffix == seq!["status"@] ==> suffix[0] == "status"@ && suffix.len() == 1);
        assert(suffix == seq!["response"@] ==> suffix[0] == "response"@ && suffix.len() == 1);
    }
    if rest != 0 && !status && !response {
        return Err(validation("fal queue URL has an unknown request suffix"));
    }
    Ok(
        JobLocator::Fal {
            endpoint_id: join_slashed(&parts, at),
            request_id: parts[at + 1].clone(),
            status_url: if status {
                Some(url.text.clone())
            } else {
                None
            },
            response_url: if response {
                Some(url.text.clone())
            } else {
                None
            },
        },
    )
}

impl FalProvider {
    /// Reads the job out of the text of a queue, status or result URL.
    pub fn parse_import_url(value: &str) -> (r: Result<JobLocator, ProviderError>)
        ensures
            match crate::outside::url_of(value@) {
                Some(url) => match r {
                    Ok(locator) => imported(url) == Ok::<LocatorView, (ProviderErrorKind, Seq<char>)>(
                        locator@,
                    ),
                    Err(e) => imported(url) matches Err((kind, message)) && e@ == crate::providers::fal::fal_failure(
                        kind,
                        message,
                    ),
                },
                None => r matches Err(e) && e@ == crate::providers::fal::fal_failure(
                    ProviderErrorKind::Validation,
                    "Invalid fal queue URL"@,
                ),
            },
    {
        match read_url(value) {
            Some(url) => import_locator_from(&url),
            None => Err(validation("Invalid fal queue URL")),
        }
    }

    /// The place of a job whose endpoint and request are known. `problem` says what is wrong with
    /// that place.
    pub fn locator(endpoint_id: &str, request_id: &str, problem: Option<String>) -> (r: Result<
        JobLocator,
        ProviderError,
    >)
        ensures
            match problem {
                None => r matches Ok(l) && l@ == (LocatorView::Fal {
                    endpoint_id: crate::urls::without_slashes(endpoint_id@),
                    request_id: crate::urls::without_slashes(request_id@),
                    status_url: None,
                    response_url: None,
                }),
                Some(message) => r matches Err(e) && e@ == crate::providers::fal::fal_failure(
                    ProviderErrorKind::Validation,
                    message@,
                ),
            },
    {
        if let Some(message) = problem {
            return Err(validation(message.as_str()));
        }
        Ok(
            JobLocator::Fal {
                endpoint_id: trim_slashes(endpoint_id),
                request_id: trim_slashes(request_id),
                status_url: None,
                response_url: None,
            },
        )
    }
}

/// Reads the URL of a finished video.
pub fn read_artifact_url(value: &str) -> (r: Result<String, ProviderError>)
    ensures
        match crate::outside::url_of(value@) {
            Some(url) => r matches Ok(text) && text@ == url.text,
            None => r matches Err(e) && e@ == crate::providers::fal::fal_failure(
                ProviderErrorKind::UnsafeEndpoint,
                "Invalid artifact URL"@,
            ),
        },
{
    match read_url(value) {
        Some(url) => Ok(url.text),
        None => Err(unsafe_endpoint("Invalid artifact URL")),
    }
}

/// Reads the URL at which a job says that its result is.
pub fn read_response_url(value: &str) -> (r: Result<String, ProviderError>)
    ensures
        match crate::outside::url_of(value@) {
            Some(url) => r matches Ok(text) && text@ == url.text,
            None => r matches Err(e) && e@ == crate::providers::fal::fal_failure(
                ProviderErrorKind::UnsafeEndpoint,
                "Invalid fal response URL"@,
            ),
        },
{
    match read_url(value) {
        Some(url) => Ok(url.text),
        None => Err(unsafe_endpoint("Invalid fal response URL")),
    }
}

} // verus!
