//! Talking to fal.ai: what an answer means, when a request is repeated, and what is kept out of
//! messages.

use crate::domain::FAL_PROVIDER_ID;
use crate::json::{copy_json, Json, JsonView, Member};
use crate::outside::{find_document, has_reason, render};
use crate::providers::fal::{failure, response_error};
use crate::providers::fal_jobs::fal_error_message;
use crate::providers::{ErrorView, ProviderError, ProviderErrorKind};
use crate::text::{
    ascii_lowercase, concat, concat3, contains_text, decimal, parse_unsigned, replace_text,
    trim_text,
};
use vstd::prelude::*;

verus! {

/// The most bytes of an answer that are read.
pub const MAX_JSON_BYTES: usize = 8_388_608;

/// What stands where a secret was.
pub const REDACTED: &'static str = "[REDACTED]";

/// A text without a secret.
pub open spec fn redacted_text(value: Seq<char>, secret: Seq<char>) -> Seq<char> {
    crate::text::replaced(value, secret, REDACTED@)
}

/// Takes a secret out of a text.
pub fn redact_text(value: &str, secret: &str) -> (r: String)
    ensures
        r@ == redacted_text(value@, secret@),
{
    if secret.is_empty() {
        value.to_owned()
    } else {
        replace_text(value, secret, REDACTED)
    }
}

/// A redacted text does not hold the secret, where the secret cannot overlap what stands in its
/// place.
pub proof fn redacted_text_holds_no_secret(value: Seq<char>, secret: Seq<char>)
    requires
        secret.len() > 0,
        crate::text::never_overlap(secret, REDACTED@),
    ensures
        !crate::text::occurs(redacted_text(value, secret), secret),
{
    reveal_strlit("[REDACTED]");
    crate::text::replaced_leaves_none(value, secret, REDACTED@);
}

/// A document without a secret: each of its text values is redacted.
pub open spec fn redacted(value: JsonView, secret: Seq<char>) -> JsonView
    decreases value, 1nat,
{
    match value {
        JsonView::Text(text) => JsonView::Text(redacted_text(text, secret)),
        JsonView::Array(items) => JsonView::Array(redacted_items(items, secret)),
        JsonView::Object(members) => JsonView::Object(redacted_members(members, secret)),
        _ => value,
    }
}

/// Items without a secret.
pub open spec fn redacted_items(items: Seq<JsonView>, secret: Seq<char>) -> Seq<JsonView>
    decreases items, 0nat,
{
    if items.len() == 0 {
        items
    } else {
        redacted_items(items.drop_last(), secret).push(redacted(items.last(), secret))
    }
}

/// Members without a secret in their values.
pub open spec fn redacted_members(members: Seq<(Seq<char>, JsonView)>, secret: Seq<char>) -> Seq<
    (Seq<char>, JsonView),
>
    decreases members, 0nat,
{
    if members.len() == 0 {
        members
    } else {
        proof {
            assert(decreases_to!(members => members.last()));
            assert(decreases_to!(members.last() => members.last().1));
        }
        redacted_members(members.drop_last(), secret).push(
            (members.last().0, redacted(members.last().1, secret)),
        )
    }
}

/// Takes a secret out of the text values of a document.
pub fn redact_value(value: &Json, secret: &str) -> (r: Json)
    ensures
        r@ == redacted(value@, secret@),
    decreases value@, 1nat,
{
    broadcast use crate::json::array_view, crate::json::object_view;

    match value {
        Json::Text(text) => Json::Text(redact_text(text.as_str(), secret)),
        Json::Array(items) => {
            let ghost view = crate::json::items_view(items@);
            let mut list: Vec<Json> = Vec::new();
            let mut i: usize = 0;
            assert(view.take(0) =~= Seq::<JsonView>::empty());
            assert(crate::json::items_view(list@) =~= Seq::<JsonView>::empty());
            while i < items.len()
                invariant
                    i <= items@.len(),
                    view == crate::json::items_view(items@),
                    value@ == JsonView::Array(view),
                    crate::json::items_view(list@) == redacted_items(view.take(i as int), secret@),
                decreases items@.len() - i,
            {
                assert(decreases_to!(value@ => value@->Array_0));
                assert(decreases_to!(value@->Array_0 => view[i as int]));
                assert(view.take(i + 1).drop_last() =~= view.take(i as int));
                assert(view.take(i + 1).last() == items@[i as int]@);
                let ghost before = crate::json::items_view(list@);
                let item = redact_value(&items[i], secret);
                list.push(item);
                assert(crate::json::items_view(list@) =~= before.push(item@));
                i = i + 1;
            }
            assert(view.take(view.len() as int) =~= view);
            Json::Array(list)
        },
        Json::Object(members) => {
            let ghost view = crate::json::members_view(members@);
            let mut list: Vec<Member> = Vec::new();
            let mut i: usize = 0;
            assert(view.take(0) =~= Seq::<(Seq<char>, JsonView)>::empty());
            assert(crate::json::members_view(list@) =~= Seq::<(Seq<char>, JsonView)>::empty());
            while i < members.len()
                invariant
                    i <= members@.len(),
                    view == crate::json::members_view(members@),
                    value@ == JsonView::Object(view),
                    crate::json::members_view(list@) == redacted_members(
                        view.take(i as int),
                        secret@,
                    ),
                decreases members@.len() - i,
            {
                assert(decreases_to!(value@ => value@->Object_0));
                assert(decreases_to!(value@->Object_0 => view[i as int]));
                assert(decreases_to!(view[i as int] => view[i as int].1));
                assert(view.take(i + 1).drop_last() =~= view.take(i as int));
                assert(view.take(i + 1).last() == (
                    members@[i as int].key@,
                    members@[i as int].value@,
                ));
                let ghost before = crate::json::members_view(list@);
                let item = redact_value(&members[i].value, secret);
                list.push(Member { key: members[i].key.clone(), value: item });
                assert(crate::json::members_view(list@) =~= before.push(
                    (members@[i as int].key@, item@),
                ));
                i = i + 1;
            }
            assert(view.take(view.len() as int) =~= view);
            Json::Object(list)
        },
        _ => copy_json(value),
    }
}

/// Whether a text value somewhere in a document holds `text`.
pub open spec fn mentions(value: JsonView, text: Seq<char>) -> bool
    decreases value, 1nat,
{
    match value {
        JsonView::Text(own) => crate::text::occurs(own, text),
        JsonView::Array(items) => items_mention(items, text),
        JsonView::Object(members) => members_mention(members, text),
        _ => false,
    }
}

/// Whether one of the items holds `text`.
pub open spec fn items_mention(items: Seq<JsonView>, text: Seq<char>) -> bool
    decreases items, 0nat,
{
    items.len() > 0 && (items_mention(items.drop_last(), text) || mentions(items.last(), text))
}

/// Whether the value of one of the members holds `text`.
pub open spec fn members_mention(members: Seq<(Seq<char>, JsonView)>, text: Seq<char>) -> bool
    decreases members, 0nat,
{
    if members.len() == 0 {
        false
    } else {
        proof {
            assert(decreases_to!(members => members.last()));
            assert(decreases_to!(members.last() => members.last().1));
        }
        members_mention(members.drop_last(), text) || mentions(members.last().1, text)
    }
}

/// No text value of a redacted document holds the secret, where the secret cannot overlap what
/// stands in its place.
pub proof fn redacted_mentions_no_secret(value: JsonView, secret: Seq<char>)
    requires
        secret.len() > 0,
        crate::text::never_overlap(secret, REDACTED@),
    ensures
        !mentions(redacted(value, secret), secret),
    decreases value, 1nat,
{
    match value {
        JsonView::Text(text) => {
            redacted_text_holds_no_secret(text, secret);
        },
        JsonView::Array(items) => {
            redacted_items_mention_none(items, secret);
        },
        JsonView::Object(members) => {
            redacted_members_mention_none(members, secret);
        },
        _ => {},
    }
}

proof fn redacted_items_mention_none(items: Seq<JsonView>, secret: Seq<char>)
    requires
        secret.len() > 0,
        crate::text::never_overlap(secret, REDACTED@),
    ensures
        !items_mention(redacted_items(items, secret), secret),
    decreases items, 0nat,
{
    if items.len() > 0 {
        redacted_items_mention_none(items.drop_last(), secret);
        redacted_mentions_no_secret(items.last(), secret);
        let after = redacted_items(items, secret);
        assert(after.drop_last() =~= redacted_items(items.drop_last(), secret));
    }
}

proof fn redacted_members_mention_none(members: Seq<(Seq<char>, JsonView)>, secret: Seq<char>)
    requires
        secret.len() > 0,
        crate::text::never_overlap(secret, REDACTED@),
    ensures
        !members_mention(redacted_members(members, secret), secret),
    decreases members, 0nat,
{
    if members.len() > 0 {
        assert(decreases_to!(members => members.last()));
        assert(decreases_to!(members.last() => members.last().1));
        redacted_members_mention_none(members.drop_last(), secret);
        redacted_mentions_no_secret(members.last().1, secret);
        let after = redacted_members(members, secret);
        assert(after.drop_last() =~= redacted_members(members.drop_last(), secret));
    }
}

/// Whether an answer with this status may be different the next time.
pub open spec fn worth_repeating(status: u16) -> bool {
    status == 408 || status == 425 || status == 429 || status == 500 || status == 502 || status
        == 503 || status == 504
}

/// Whether an answer with this status may be different the next time.
pub fn retryable(status: u16) -> (b: bool)
    ensures
        b == worth_repeating(status),
{
    status == 408 || status == 425 || status == 429 || status == 500 || status == 502 || status
        == 503 || status == 504
}

/// Whether a refusal with this status leaves open that the submission was taken: everything but a
/// standard client error that is no time-out.
pub open spec fn ambiguous(status: u16) -> bool {
    !(400 <= status < 500) || status == 408 || !crate::outside::standard_client_error(status as int)
}

/// Whether a refusal with this status leaves open that the submission was taken.
pub fn submission_status_is_ambiguous(status: u16) -> (b: bool)
    ensures
        b == ambiguous(status),
{
    !(400 <= status && status < 500) || status == 408 || !has_reason(status)
}

/// The wait in seconds that a header asks for.
pub open spec fn retry_after_seconds(header: Option<Seq<char>>) -> Option<u64> {
    match header {
        Some(text) => match crate::text::parsed_unsigned(text, u64::MAX as nat) {
            Some(n) => Some(n as u64),
            None => None,
        },
        None => None,
    }
}

/// The wait in seconds that a header asks for.
pub fn parse_retry_after(header: &Option<String>) -> (r: Option<u64>)
    ensures
        r == retry_after_seconds(crate::domain::opt_view(*header)),
{
    match header {
        Some(text) => parse_unsigned(text.as_str(), u64::MAX),
        None => None,
    }
}

/// What kind of failure an answer is, by its hints and its status.
pub open spec fn failure_kind(status: u16, hint: Seq<char>) -> ProviderErrorKind {
    if crate::text::occurs(hint, "insufficient credit"@) || crate::text::occurs(
        hint,
        "insufficient_credit"@,
    ) || crate::text::occurs(hint, "balance"@) {
        ProviderErrorKind::InsufficientCredits
    } else if crate::text::occurs(hint, "content policy"@) || crate::text::occurs(
        hint,
        "content_policy"@,
    ) || crate::text::occurs(hint, "moderation"@) || crate::text::occurs(hint, "safety"@) {
        ProviderErrorKind::ContentPolicy
    } else if status == 401 || status == 403 {
        ProviderErrorKind::Authentication
    } else if status == 402 {
        ProviderErrorKind::InsufficientCredits
    } else if status == 400 || status == 404 || status == 409 || status == 422 {
        ProviderErrorKind::Validation
    } else if status == 429 {
        ProviderErrorKind::RateLimit
    } else if 500 <= status <= 599 {
        ProviderErrorKind::Unavailable
    } else {
        ProviderErrorKind::Response
    }
}

fn kind_of_failure(status: u16, hint: &str) -> (kind: ProviderErrorKind)
    ensures
        kind == failure_kind(status, hint@),
{
    if contains_text(hint, "insufficient credit") || contains_text(hint, "insufficient_credit")
        || contains_text(hint, "balance") {
        ProviderErrorKind::InsufficientCredits
    } else if contains_text(hint, "content policy") || contains_text(hint, "content_policy")
        || contains_text(hint, "moderation") || contains_text(hint, "safety") {
        ProviderErrorKind::ContentPolicy
    } else if status == 401 || status == 403 {
        ProviderErrorKind::Authentication
    } else if status == 402 {
        ProviderErrorKind::InsufficientCredits
    } else if status == 400 || status == 404 || status == 409 || status == 422 {
        ProviderErrorKind::Validation
    } else if status == 429 {
        ProviderErrorKind::RateLimit
    } else if 500 <= status && status <= 599 {
        ProviderErrorKind::Unavailable
    } else {
        ProviderErrorKind::Response
    }
}

/// The failure that a refusing answer reports; `payload` is its body as a document.
pub open spec fn refusal(
    status: u16,
    retry_after: Option<Seq<char>>,
    payload: JsonView,
    secret: Seq<char>,
) -> ErrorView {
    let (raw_message, raw_code) = crate::providers::fal_jobs::error_texts(payload);
    let message = redacted_text(raw_message, secret);
    let code = match raw_code {
        Some(c) => Some(redacted_text(c, secret)),
        None => None,
    };
    let hint = crate::text::lower_text(
        match code {
            Some(c) => c,
            None => Seq::empty(),
        } + " "@ + message,
    );
    ErrorView {
        provider_id: FAL_PROVIDER_ID@,
        kind: failure_kind(status, hint),
        message: if message.len() == 0 {
            "fal.ai request failed with HTTP "@ + crate::text::numeral(status as nat)
        } else {
            message
        },
        status_code: Some(status),
        code,
        details: JsonView::Object(Seq::empty()),
        retry_after_seconds: retry_after_seconds(retry_after),
    }
}

/// The failure that a refusing answer reports.
pub fn error_from_http(status: u16, retry_after: &Option<String>, payload: &Json, secret: &str)
    -> (e: ProviderError)
    ensures
        e@ == refusal(status, crate::domain::opt_view(*retry_after), payload@, secret@),
{
    let (raw_message, raw_code) = fal_error_message(payload);
    let message = redact_text(raw_message.as_str(), secret);
    let code = match raw_code {
        Some(c) => Some(redact_text(c.as_str(), secret)),
        None => None,
    };
    let spoken = match &code {
        Some(c) => concat3(c.as_str(), " ", message.as_str()),
        None => concat3("", " ", message.as_str()),
    };
    proof {
        reveal_strlit("");
        assert(""@ =~= Seq::<char>::empty());
    }
    let hint = ascii_lowercase(spoken.as_str());
    let kind = kind_of_failure(status, hint.as_str());
    let shown = if message.as_str().is_empty() {
        let number = decimal(status as u64);
        concat("fal.ai request failed with HTTP ", number.as_str())
    } else {
        message
    };
    let mut e = failure(kind, shown);
    e.status_code = Some(status);
    e.code = code;
    e.retry_after_seconds = parse_retry_after(retry_after);
    e
}

/// A refusal after which a submission may exist nevertheless.
pub open spec fn uncertain_refusal(error: ErrorView) -> ErrorView {
    let status = match error.status_code {
        Some(code) => code as nat,
        None => 0,
    };
    ErrorView {
        kind: ProviderErrorKind::SubmissionUncertain,
        message: "fal.ai returned HTTP "@ + crate::text::numeral(status)
            + " after receiving the submission: "@ + crate::text::trimmed(error.message)
            + ". The request may exist; do not submit again until history is checked."@,
        ..error
    }
}

/// Marks a refusal as one after which a submission may exist nevertheless.
pub fn submission_uncertain_from_http(error: ProviderError) -> (e: ProviderError)
    ensures
        e@ == uncertain_refusal(error@),
{
    let status: u64 = match error.status_code {
        Some(code) => code as u64,
        None => 0,
    };
    let number = decimal(status);
    let head = concat3("fal.ai returned HTTP ", number.as_str(), " after receiving the submission: ");
    let message = concat3(
        head.as_str(),
        trim_text(error.message.as_str()),
        ". The request may exist; do not submit again until history is checked.",
    );
    ProviderError {
        provider_id: error.provider_id,
        kind: ProviderErrorKind::SubmissionUncertain,
        message,
        status_code: error.status_code,
        code: error.code,
        details: error.details,
        retry_after_seconds: error.retry_after_seconds,
    }
}

/// A submission of which it is not known whether it was taken.
pub(crate) fn submission_uncertain(message: &str) -> (e: ProviderError)
    ensures
        e@ == crate::providers::fal::fal_failure(ProviderErrorKind::SubmissionUncertain, message@),
{
    failure(ProviderErrorKind::SubmissionUncertain, message.to_owned())
}

/// How often a request may be sent.
#[derive(Debug, Clone, Copy, PartialEq, Eq, Structural)]
pub struct RetryPolicy {
    /// Whether repeating the request does no harm.
    pub retry_safe: bool,
    pub max_retries: usize,
}

impl RetryPolicy {
    /// How often the request may be sent.
    pub open spec fn attempts(self) -> nat {
        if self.retry_safe {
            self.max_retries as nat + 1
        } else {
            1
        }
    }

    /// Whether the request may be sent again after the attempt with this number.
    pub fn more_after(&self, attempt: usize) -> (b: bool)
        ensures
            b == (attempt + 1 < self.attempts()),
    {
        self.retry_safe && attempt < self.max_retries
    }
}

/// What fal.ai is asked for.
#[derive(Debug, Clone, Copy, PartialEq, Eq, Structural)]
pub enum RequestKind {
    /// A page of the catalog.
    CatalogPage,
    /// The schemas of some models.
    Schemas,
    /// A single model.
    Model,
    /// Whether the key is accepted.
    Credentials,
    /// The price of a model.
    Price,
    /// A place for an upload.
    UploadPlace,
    /// A paid generation.
    Submission,
    /// How a job stands.
    Status,
    /// What a job produced.
    Output,
}

/// How a request is made.
#[derive(Debug, Clone, Copy, PartialEq, Eq, Structural)]
pub struct RequestManner {
    /// Whether it is a POST; else it is a GET.
    pub posts: bool,
    /// Whether the API key goes along.
    pub authenticated: bool,
    /// Whether repeating it does no harm.
    pub retry_safe: bool,
}

impl RequestKind {
    /// How the request is made.
    pub open spec fn spec_manner(self) -> RequestManner {
        RequestManner {
            posts: self == RequestKind::Submission || self == RequestKind::UploadPlace,
            authenticated: self != RequestKind::CatalogPage && self != RequestKind::Schemas && self
                != RequestKind::Model,
            retry_safe: self != RequestKind::Submission,
        }
    }

    /// How the request is made. The catalog is public and read without the key; a submission alone
    /// must not be repeated.
    pub fn manner(self) -> (manner: RequestManner)
        ensures
            manner == self.spec_manner(),
    {
        RequestManner {
            posts: self == RequestKind::Submission || self == RequestKind::UploadPlace,
            authenticated: self != RequestKind::CatalogPage && self != RequestKind::Schemas && self
                != RequestKind::Model,
            retry_safe: self != RequestKind::Submission,
        }
    }

    /// How often the request may be sent.
    pub open spec fn spec_policy(self, max_retries: usize) -> RetryPolicy {
        RetryPolicy { retry_safe: self.spec_manner().retry_safe, max_retries }
    }

    /// How often the request may be sent.
    pub fn policy(self, max_retries: usize) -> (policy: RetryPolicy)
        ensures
            policy == self.spec_policy(max_retries),
    {
        RetryPolicy { retry_safe: self.manner().retry_safe, max_retries }
    }
}

/// The text of a request's body.
pub fn body_text(body: &Json) -> (text: String)
    ensures
        text@ == crate::outside::rendering_of(body@),
{
    render(body)
}

/// The body of an answer, as far as it was read.
#[derive(Debug)]
pub enum Body {
    Bytes(Vec<u8>),
    /// The connection broke off.
    Interrupted,
    /// There were more bytes than are read.
    TooLarge,
}

/// What became of one attempt at a request.
#[derive(Debug)]
pub enum Exchange {
    /// No answer came.
    Unreachable,
    Answered { status: u16, retry_after: Option<String>, body: Body },
}

/// The mathematical value of a body.
pub enum BodyView {
    Bytes(Seq<u8>),
    Interrupted,
    TooLarge,
}

/// The mathematical value of an exchange.
pub enum ExchangeView {
    Unreachable,
    Answered { status: u16, retry_after: Option<Seq<char>>, body: BodyView },
}

impl View for Body {
    type V = BodyView;

    open spec fn view(&self) -> BodyView {
        match *self {
            Body::Bytes(bytes) => BodyView::Bytes(bytes@),
            Body::Interrupted => BodyView::Interrupted,
            Body::TooLarge => BodyView::TooLarge,
        }
    }
}

impl View for Exchange {
    type V = ExchangeView;

    open spec fn view(&self) -> ExchangeView {
        match *self {
            Exchange::Unreachable => ExchangeView::Unreachable,
            Exchange::Answered { status, retry_after, body } => ExchangeView::Answered {
                status,
                retry_after: crate::domain::opt_view(retry_after),
                body: body@,
            },
        }
    }
}

/// What to do after an attempt.
#[derive(Debug)]
pub enum NextStep {
    /// Wait for so many seconds, then send the request again.
    Wait(u64),
    /// Wait for the base delay times the factor, then send the request again.
    Backoff(u32),
    Fail(ProviderError),
    Done(Json),
}

/// The mathematical value of a step.
pub enum StepView {
    Wait(u64),
    Backoff(nat),
    Fail(ErrorView),
    Done(JsonView),
}

impl View for NextStep {
    type V = StepView;

    open spec fn view(&self) -> StepView {
        match *self {
            NextStep::Wait(seconds) => StepView::Wait(seconds),
            NextStep::Backoff(factor) => StepView::Backoff(factor as nat),
            NextStep::Fail(error) => StepView::Fail(error@),
            NextStep::Done(json) => StepView::Done(json@),
        }
    }
}

/// By what the base delay is multiplied after an attempt: it doubles, sixteen times at most.
pub open spec fn backoff_factor(attempt: nat) -> nat {
    vstd::arithmetic::power2::pow2(
        if attempt < 16 {
            attempt
        } else {
            16
        },
    )
}

/// By what the base delay is multiplied after an attempt.
pub fn backoff(attempt: usize) -> (factor: u32)
    ensures
        factor == backoff_factor(attempt as nat),
{
    let end: usize = if attempt < 16 {
        attempt
    } else {
        16
    };
    let mut factor: u32 = 1;
    let mut i: usize = 0;
    proof {
        vstd::arithmetic::power2::lemma2_to64();
    }
    while i < end
        invariant
            i <= end <= 16,
            factor == vstd::arithmetic::power2::pow2(i as nat),
            factor <= 65536,
        decreases end - i,
    {
        proof {
            vstd::arithmetic::power2::lemma2_to64();
            vstd::arithmetic::power2::lemma_pow2_unfold((i + 1) as nat);
            vstd::arithmetic::power2::lemma_pow2_strictly_increases(i as nat, 16);
        }
        factor = factor * 2;
        i = i + 1;
        proof {
            if i < 16 {
                vstd::arithmetic::power2::lemma_pow2_strictly_increases(i as nat, 16);
            }
        }
    }
    factor
}

/// What to make of a body that came with a success, once it has been read as a document.
pub open spec fn accepted(
    retry_safe: bool,
    body: BodyView,
    document: Option<JsonView>,
    secret: Seq<char>,
) -> StepView {
    match body {
        BodyView::Interrupted => StepView::Fail(
            if retry_safe {
                crate::providers::fal::fal_failure(
                    ProviderErrorKind::Network,
                    "Network connection interrupted while reading fal.ai's response"@,
                )
            } else {
                uncertain(
                    "fal accepted the submission connection but its response was interrupted"@,
                )
            },
        ),
        BodyView::TooLarge => StepView::Fail(
            if retry_safe {
                crate::providers::fal::fal_failure(
                    ProviderErrorKind::Response,
                    "fal.ai response exceeded the safe size limit"@,
                )
            } else {
                uncertain(
                    "fal accepted the submission connection but its response was interrupted"@,
                )
            },
        ),
        BodyView::Bytes(_) => match document {
            None => StepView::Fail(
                if retry_safe {
                    crate::providers::fal::fal_failure(
                        ProviderErrorKind::Response,
                        "fal.ai returned invalid JSON"@,
                    )
                } else {
                    uncertain(
                        "fal returned an unreadable submission response; the request may exist"@,
                    )
                },
            ),
            Some(JsonView::Object(members)) => StepView::Done(
                redacted(JsonView::Object(members), secret),
            ),
            Some(_) => StepView::Fail(
                if retry_safe {
                    crate::providers::fal::fal_failure(
                        ProviderErrorKind::Response,
                        "fal.ai returned a non-object JSON response"@,
                    )
                } else {
                    uncertain(
                        "fal returned an invalid submission response; the request may exist"@,
                    )
                },
            ),
        },
    }
}

/// A submission of which it is not known whether it was taken.
pub open spec fn uncertain(message: Seq<char>) -> ErrorView {
    crate::providers::fal::fal_failure(ProviderErrorKind::SubmissionUncertain, message)
}

/// What to do after a refusal, once its body has been read as a document.
pub open spec fn refused(
    policy: RetryPolicy,
    attempt: nat,
    status: u16,
    retry_after: Option<Seq<char>>,
    payload: JsonView,
    secret: Seq<char>,
) -> StepView {
    let error = refusal(status, retry_after, payload, secret);
    if !policy.retry_safe && ambiguous(status) {
        StepView::Fail(uncertain_refusal(error))
    } else if policy.retry_safe && worth_repeating(status) && attempt + 1 < policy.attempts() {
        match error.retry_after_seconds {
            Some(seconds) => StepView::Wait(seconds),
            None => StepView::Backoff(backoff_factor(attempt)),
        }
    } else {
        StepView::Fail(error)
    }
}

/// What to do after an attempt. `document` is what the body of the answer holds.
pub open spec fn step_after(
    policy: RetryPolicy,
    attempt: nat,
    exchange: ExchangeView,
    document: Option<JsonView>,
    secret: Seq<char>,
) -> StepView {
    match exchange {
        ExchangeView::Unreachable => if !policy.retry_safe {
            StepView::Fail(
                uncertain(
                    "Connection failed during fal submission. The request may exist; do not submit again until history is checked."@,
                ),
            )
        } else if attempt + 1 < policy.attempts() {
            StepView::Backoff(backoff_factor(attempt))
        } else {
            StepView::Fail(
                crate::providers::fal::fal_failure(
                    ProviderErrorKind::Network,
                    "Could not reach fal.ai"@,
                ),
            )
        },
        ExchangeView::Answered { status, retry_after, body } => if 200 <= status < 300 {
            accepted(policy.retry_safe, body, document, secret)
        } else {
            refused(
                policy,
                attempt,
                status,
                retry_after,
                match document {
                    Some(json) => json,
                    None => JsonView::Null,
                },
                secret,
            )
        },
    }
}

/// The document that the body of an exchange's answer holds.
pub open spec fn exchanged(exchange: ExchangeView) -> Option<JsonView> {
    match exchange {
        ExchangeView::Answered { body: BodyView::Bytes(bytes), .. } =>
            crate::outside::document_in(bytes),
        ExchangeView::Answered { .. } => crate::outside::document_in(Seq::empty()),
        ExchangeView::Unreachable => None,
    }
}

/// Decides what to do after an attempt; `document` is what the body of the answer holds.
pub fn decide_step(
    policy: RetryPolicy,
    attempt: usize,
    exchange: &Exchange,
    document: Option<Json>,
    secret: &str,
) -> (step: NextStep)
    ensures
        step@ == step_after(
            policy,
            attempt as nat,
            exchange@,
            match document {
                Some(json) => Some(json@),
                None => None,
            },
            secret@,
        ),
{
    broadcast use crate::json::object_view;

    match exchange {
        Exchange::Unreachable => {
            if !policy.retry_safe {
                NextStep::Fail(
                    submission_uncertain(
                        "Connection failed during fal submission. The request may exist; do not submit again until history is checked.",
                    ),
                )
            } else if policy.more_after(attempt) {
                NextStep::Backoff(backoff(attempt))
            } else {
                NextStep::Fail(failure(ProviderErrorKind::Network, "Could not reach fal.ai".to_owned()))
            }
        },
        Exchange::Answered { status, retry_after, body } => {
            let code: u16 = *status;
            if !(200 <= code && code < 300) {
                let payload = match document {
                    Some(json) => json,
                    None => Json::Null,
                };
                let error = error_from_http(code, retry_after, &payload, secret);
                if !policy.retry_safe && submission_status_is_ambiguous(code) {
                    return NextStep::Fail(submission_uncertain_from_http(error));
                }
                if policy.retry_safe && retryable(code) && policy.more_after(attempt) {
                    return match error.retry_after_seconds {
                        Some(seconds) => NextStep::Wait(seconds),
                        None => NextStep::Backoff(backoff(attempt)),
                    };
                }
                return NextStep::Fail(error);
            }
            match body {
                Body::Interrupted => NextStep::Fail(
                    if policy.retry_safe {
                        failure(
                            ProviderErrorKind::Network,
                            "Network connection interrupted while reading fal.ai's response".to_owned(),
                        )
                    } else {
                        submission_uncertain(
                            "fal accepted the submission connection but its response was interrupted",
                        )
                    },
                ),
                Body::TooLarge => NextStep::Fail(
                    if policy.retry_safe {
                        response_error("fal.ai response exceeded the safe size limit")
                    } else {
                        submission_uncertain(
                            "fal accepted the submission connection but its response was interrupted",
                        )
                    },
                ),
                Body::Bytes(_) => match document {
                    None => NextStep::Fail(
                        if policy.retry_safe {
                            response_error("fal.ai returned invalid JSON")
                        } else {
                            submission_uncertain(
                                "fal returned an unreadable submission response; the request may exist",
                            )
                        },
                    ),
                    Some(json) => match &json {
                        Json::Object(_) => NextStep::Done(redact_value(&json, secret)),
                        _ => NextStep::Fail(
                            if policy.retry_safe {
                                response_error("fal.ai returned a non-object JSON response")
                            } else {
                                submission_uncertain(
                                    "fal returned an invalid submission response; the request may exist",
                                )
                            },
                        ),
                    },
                },
            }
        },
    }
}

/// Decides what to do after an attempt.
pub fn next_step(policy: RetryPolicy, attempt: usize, exchange: &Exchange, secret: &str) -> (step:
    NextStep)
    ensures
        step@ == step_after(policy, attempt as nat, exchange@, exchanged(exchange@), secret@),
{
    let document = match exchange {
        Exchange::Unreachable => None,
        Exchange::Answered { body: Body::Bytes(bytes), .. } => find_document(bytes.as_slice()),
        Exchange::Answered { .. } => {
            let nothing: Vec<u8> = Vec::new();
            assert(nothing@ =~= Seq::<u8>::empty());
            find_document(nothing.as_slice())
        },
    };
    decide_step(policy, attempt, exchange, document, secret)
}

/// A request that must not be repeated is sent once: no outcome leads to another attempt.
pub proof fn unsafe_requests_are_sent_once(
    policy: RetryPolicy,
    attempt: nat,
    exchange: ExchangeView,
    document: Option<JsonView>,
    secret: Seq<char>,
)
    requires
        !policy.retry_safe,
    ensures
        !(step_after(policy, attempt, exchange, document, secret) is Wait),
        !(step_after(policy, attempt, exchange, document, secret) is Backoff),
{
}

/// A paid generation is asked for once: whatever came of the request, it is not sent again, and
/// where fal.ai may have taken it the failure says so.
pub proof fn generations_are_submitted_once(
    max_retries: usize,
    attempt: nat,
    exchange: ExchangeView,
    document: Option<JsonView>,
    secret: Seq<char>,
)
    ensures
        ({
            let policy = RequestKind::Submission.spec_policy(max_retries);
            let step = step_after(policy, attempt, exchange, document, secret);
            &&& policy.attempts() == 1
            &&& step is Fail || step is Done
            &&& (exchange matches ExchangeView::Answered { status, .. } ==> ambiguous(status))
                ==> (step matches StepView::Fail(error) ==> error.kind
                == ProviderErrorKind::SubmissionUncertain)
        }),
{
    let policy = RequestKind::Submission.spec_policy(max_retries);
    unsafe_requests_are_sent_once(policy, attempt, exchange, document, secret);
    if exchange matches ExchangeView::Answered { status, .. } ==> ambiguous(status) {
        ambiguous_submissions_are_uncertain(policy, attempt, exchange, document, secret);
    }
}

/// After the last attempt that the policy allows there is no other.
pub proof fn attempts_are_bounded(
    policy: RetryPolicy,
    attempt: nat,
    exchange: ExchangeView,
    document: Option<JsonView>,
    secret: Seq<char>,
)
    requires
        attempt + 1 >= policy.attempts(),
    ensures
        !(step_after(policy, attempt, exchange, document, secret) is Wait),
        !(step_after(policy, attempt, exchange, document, secret) is Backoff),
{
}

/// A submission that was not plainly refused, and whose answer is not plainly a job, is reported
/// as uncertain.
pub proof fn ambiguous_submissions_are_uncertain(
    policy: RetryPolicy,
    attempt: nat,
    exchange: ExchangeView,
    document: Option<JsonView>,
    secret: Seq<char>,
)
    requires
        !policy.retry_safe,
        exchange matches ExchangeView::Answered { status, .. } ==> ambiguous(status),
    ensures
        match step_after(policy, attempt, exchange, document, secret) {
            StepView::Fail(error) => error.kind == ProviderErrorKind::SubmissionUncertain,
            StepView::Done(json) => exchange matches ExchangeView::Answered { status, .. } && 200
                <= status < 300,
            _ => false,
        },
{
}

/// What a successful request hands on holds no text value with the secret in it, where the secret
/// cannot overlap what stands in its place.
pub proof fn answers_mention_no_secret(
    policy: RetryPolicy,
    attempt: nat,
    exchange: ExchangeView,
    document: Option<JsonView>,
    secret: Seq<char>,
)
    requires
        secret.len() > 0,
        crate::text::never_overlap(secret, REDACTED@),
    ensures
        step_after(policy, attempt, exchange, document, secret) matches StepView::Done(json)
            ==> !mentions(json, secret),
{
    if let Some(json) = document {
        redacted_mentions_no_secret(json, secret);
    }
}

/// A body that is being read.
pub open spec fn body_after(read: Seq<u8>, chunk: Seq<u8>, limit: nat) -> Option<Seq<u8>> {
    if read.len() + chunk.len() > limit {
        None
    } else {
        Some(read + chunk)
    }
}

/// Adds a chunk to the body that has been read; `false` where there would be more than `limit`
/// bytes.
pub fn collect_chunk(read: &mut Vec<u8>, chunk: &mut Vec<u8>, limit: usize) -> (fits: bool)
    requires
        old(read)@.len() <= limit,
    ensures
        match body_after(old(read)@, old(chunk)@, limit as nat) {
            Some(bytes) => fits && final(read)@ == bytes,
            None => !fits && final(read)@ == old(read)@,
        },
        final(read)@.len() <= limit,
{
    if chunk.len() > limit - read.len() {
        return false;
    }
    read.append(chunk);
    true
}

} // verus!
