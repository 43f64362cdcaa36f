//! What fal.ai says of a job: its state, its errors and the video that it produced.

use crate::domain::{
    copy_text, JobLocator, JobStatus, LocatorView, ProviderId, StatusView, VideoArtifact, VideoJob,
    FAL_PROVIDER_ID,
};
use crate::json::{copy_json, Json, JsonView, Member};
use crate::outside::render;
use crate::providers::fal::{response_error, validation};
use crate::providers::{ProviderError, ProviderErrorKind};
use crate::text::{
    ascii_lowercase, ascii_uppercase, char_from, chars_of, comes_before, concat, concat3,
    contains_text, ends_with_text, same_text, starts_with_text, text_of,
};
use vstd::prelude::*;

verus! {

/// A field's value, or that of another field where there is none.
pub open spec fn field_or(json: JsonView, first: Seq<char>, second: Seq<char>) -> Option<JsonView> {
    match crate::json::field(json, first) {
        Some(value) => Some(value),
        None => crate::json::field(json, second),
    }
}

/// A value as text: a string by its characters, anything else as JSON.
pub open spec fn as_text(value: JsonView) -> Seq<char> {
    match value {
        JsonView::Text(text) => text,
        other => crate::outside::rendering_of(other),
    }
}

fn to_text(value: &Json) -> (text: String)
    ensures
        text@ == as_text(value@),
{
    match value.as_str() {
        Some(text) => text.to_owned(),
        None => render(value),
    }
}

/// The message and the code of an error answer.
pub open spec fn error_texts(payload: JsonView) -> (Seq<char>, Option<Seq<char>>) {
    let error = match crate::json::field(payload, "error"@) {
        Some(inner) => inner,
        None => payload,
    };
    let message = match crate::json::field(error, "message"@) {
        Some(value) => as_text(value),
        None => match crate::json::field(payload, "detail"@) {
            Some(value) => as_text(value),
            None => Seq::empty(),
        },
    };
    let code = match field_or(error, "type"@, "code"@) {
        Some(JsonView::Text(code)) => Some(code),
        _ => None,
    };
    (message, code)
}

/// The message and the code of an error answer.
pub fn fal_error_message(payload: &Json) -> (r: (String, Option<String>))
    ensures
        (r.0@, crate::domain::opt_view(r.1)) == error_texts(payload@),
{
    let error = match payload.get("error") {
        Some(inner) => inner,
        None => payload,
    };
    let named = match error.get("type") {
        Some(value) => Some(value),
        None => error.get("code"),
    };
    let code = match named {
        Some(Json::Text(code)) => Some(code.clone()),
        _ => None,
    };
    let message = match error.get("message") {
        Some(value) => to_text(value),
        None => match payload.get("detail") {
            Some(value) => to_text(value),
            None => String::new(),
        },
    };
    (message, code)
}

/// What a non-null `error` member says.
pub open spec fn error_member_text(error: JsonView) -> Seq<char> {
    match error {
        JsonView::Text(text) => text,
        _ => match crate::json::text_field(error, "message"@) {
            Some(text) => text,
            None => crate::outside::rendering_of(error),
        },
    }
}

/// The error that an answer reports, if it reports one.
pub open spec fn payload_error(payload: JsonView) -> Option<Seq<char>> {
    let stated = match crate::json::field(payload, "error"@) {
        Some(JsonView::Null) => None,
        Some(error) => {
            let text = error_member_text(error);
            if text.len() > 0 && text != "{}"@ {
                Some(text)
            } else {
                None
            }
        },
        None => None,
    };
    match stated {
        Some(text) => Some(text),
        None => match crate::json::text_field(payload, "error_type"@) {
            Some(kind) if kind.len() > 0 => Some(kind),
            _ => {
                let message = error_texts(payload).0;
                if message.len() > 0 {
                    Some(message)
                } else {
                    None
                }
            },
        },
    }
}

/// The error that an answer reports, if it reports one.
pub fn fal_payload_error(payload: &Json) -> (r: Option<String>)
    ensures
        crate::domain::opt_view(r) == payload_error(payload@),
{
    match payload.get("error") {
        Some(Json::Null) => {},
        Some(error) => {
            let text = match error.as_str() {
                Some(text) => text.to_owned(),
                None => match error.get_str("message") {
                    Some(text) => text.to_owned(),
                    None => render(error),
                },
            };
            if !text.as_str().is_empty() && !same_text(text.as_str(), "{}") {
                return Some(text);
            }
        },
        None => {},
    }
    if let Some(kind) = payload.get_str("error_type") {
        if !kind.is_empty() {
            return Some(kind.to_owned());
        }
    }
    let (message, code) = fal_error_message(payload);
    if message.as_str().is_empty() {
        None
    } else {
        Some(message)
    }
}

/// The state that fal.ai names.
pub open spec fn named_status(raw: Seq<char>) -> StatusView {
    let name = crate::text::upper_text(raw);
    if name == "IN_QUEUE"@ {
        StatusView::Pending
    } else if name == "IN_PROGRESS"@ {
        StatusView::InProgress
    } else if name == "COMPLETED"@ {
        StatusView::Completed
    } else if name == "CANCELLED"@ || name == "CANCELED"@ {
        StatusView::Cancelled
    } else if name == "FAILED"@ {
        StatusView::Failed
    } else {
        StatusView::Unknown(crate::text::lower_text(raw))
    }
}

/// The name of the state in a status answer.
pub open spec fn raw_status(payload: JsonView) -> Seq<char> {
    match crate::json::text_field(payload, "status"@) {
        Some(name) => name,
        None => "UNKNOWN"@,
    }
}

/// The state that a status answer reports: failed where it reports an error.
pub open spec fn reported_status(payload: JsonView) -> StatusView {
    if payload_error(payload) is Some {
        StatusView::Failed
    } else {
        named_status(raw_status(payload))
    }
}

fn status_of(raw: &str) -> (status: JobStatus)
    ensures
        status@ == named_status(raw@),
{
    let name = ascii_uppercase(raw);
    let n = name.as_str();
    if same_text(n, "IN_QUEUE") {
        JobStatus::Pending
    } else if same_text(n, "IN_PROGRESS") {
        JobStatus::InProgress
    } else if same_text(n, "COMPLETED") {
        JobStatus::Completed
    } else if same_text(n, "CANCELLED") || same_text(n, "CANCELED") {
        JobStatus::Cancelled
    } else if same_text(n, "FAILED") {
        JobStatus::Failed
    } else {
        JobStatus::Unknown(ascii_lowercase(raw))
    }
}

/// Where an answer says that the job is to be found.
pub open spec fn answered_locator(endpoint_id: Seq<char>, request_id: Seq<char>, payload: JsonView)
    -> LocatorView {
    LocatorView::Fal {
        endpoint_id,
        request_id,
        status_url: crate::json::text_field(payload, "status_url"@),
        response_url: crate::json::text_field(payload, "response_url"@),
    }
}

fn text_member(payload: &Json, key: &str) -> (r: Option<String>)
    ensures
        crate::domain::opt_view(r) == crate::json::text_field(payload@, key@),
{
    match payload.get_str(key) {
        Some(text) => Some(text.to_owned()),
        None => None,
    }
}

fn locator_in(endpoint_id: &str, request_id: &str, payload: &Json) -> (locator: JobLocator)
    ensures
        locator@ == answered_locator(endpoint_id@, request_id@, payload@),
{
    JobLocator::Fal {
        endpoint_id: endpoint_id.to_owned(),
        request_id: request_id.to_owned(),
        status_url: text_member(payload, "status_url"),
        response_url: text_member(payload, "response_url"),
    }
}

/// A text as it stands in a document.
pub open spec fn quoted(text: Seq<char>) -> Seq<char> {
    crate::outside::rendering_of(JsonView::Text(text))
}

/// A further member of a locator, where it has one. `lead` stands before its value.
pub open spec fn written_member(lead: Seq<char>, text: Option<Seq<char>>) -> Seq<char> {
    match text {
        Some(text) => lead + quoted(text),
        None => Seq::empty(),
    }
}

/// A locator in one line of JSON: the provider first, then what it goes by there, as far as it is
/// known.
pub open spec fn written_locator(locator: LocatorView) -> Seq<char> {
    match locator {
        LocatorView::OpenRouter { polling_url } =>
            "{\"provider\":\"open_router\",\"polling_url\":"@ + quoted(polling_url) + "}"@,
        LocatorView::Fal { endpoint_id, request_id, status_url, response_url } =>
            "{\"provider\":\"fal\",\"endpoint_id\":"@ + quoted(endpoint_id) + ",\"request_id\":"@
            + quoted(request_id) + (written_member(",\"status_url\":"@, status_url)
            + written_member(",\"response_url\":"@, response_url)) + "}"@,
    }
}

fn quote(text: &str) -> (s: String)
    ensures
        s@ == quoted(text@),
{
    render(&Json::Text(text.to_owned()))
}

fn write_member(lead: &str, text: &Option<String>) -> (s: String)
    ensures
        s@ == written_member(lead@, crate::domain::opt_view(*text)),
{
    match text {
        Some(text) => {
            let value = quote(text.as_str());
            concat(lead, value.as_str())
        },
        None => String::new(),
    }
}

/// Writes a locator in one line of JSON.
pub fn write_locator(locator: &JobLocator) -> (s: String)
    ensures
        s@ == written_locator(locator@),
{
    match locator {
        JobLocator::OpenRouter { polling_url } => {
            let url = quote(polling_url.as_str());
            concat3("{\"provider\":\"open_router\",\"polling_url\":", url.as_str(), "}")
        },
        JobLocator::Fal { endpoint_id, request_id, status_url, response_url } => {
            let endpoint = quote(endpoint_id.as_str());
            let head = concat3(
                "{\"provider\":\"fal\",\"endpoint_id\":",
                endpoint.as_str(),
                ",\"request_id\":",
            );
            let request = quote(request_id.as_str());
            let known = concat(head.as_str(), request.as_str());
            let status = write_member(",\"status_url\":", status_url);
            let response = write_member(",\"response_url\":", response_url);
            let further = concat(status.as_str(), response.as_str());
            concat3(known.as_str(), further.as_str(), "}")
        },
    }
}

/// The metrics in an answer, or an empty object.
pub open spec fn metrics(payload: JsonView) -> JsonView {
    match crate::json::object_field(payload, "metrics"@) {
        Some(members) => JsonView::Object(members),
        None => JsonView::Object(Seq::empty()),
    }
}

fn empty_object() -> (json: Json)
    ensures
        json@ == JsonView::Object(Seq::empty()),
{
    broadcast use crate::json::object_view;

    let members: Vec<Member> = Vec::new();
    assert(crate::json::members_view(members@) =~= Seq::<(Seq<char>, JsonView)>::empty());
    Json::Object(members)
}

fn metrics_in(payload: &Json) -> (json: Json)
    ensures
        json@ == metrics(payload@),
{
    match payload.get("metrics") {
        Some(value) => match value.as_object() {
            Some(members) => copy_json(value),
            None => empty_object(),
        },
        None => empty_object(),
    }
}

/// The job that an accepted submission started. `locator_problem` says what is wrong with the
/// place at which the answer puts the job.
pub fn fal_submitted_job(endpoint_id: &str, payload: &Json, locator_problem: Option<String>) -> (r:
    Result<VideoJob, ProviderError>)
    ensures
        match r {
            Ok(job) => {
                &&& crate::json::text_field(payload@, "request_id"@) == Some(job.id@)
                &&& job.id@.len() > 0
                &&& locator_problem is None
                &&& job.provider_id@ == FAL_PROVIDER_ID@
                &&& job.status@ == StatusView::Pending
                &&& job.locator@ == answered_locator(endpoint_id@, job.id@, payload@)
                &&& job.raw@ == payload@
                &&& job.usage@ == JsonView::Object(Seq::empty())
                &&& job.error is None && job.generation_id is None
                &&& job.polling_url@ == written_locator(job.locator@)
                &&& job.artifacts@.len() == 0 && job.unsigned_urls@.len() == 0
            },
            Err(e) => match crate::json::text_field(payload@, "request_id"@) {
                Some(id) if id.len() > 0 => locator_problem matches Some(problem) && e@
                    == crate::providers::fal::fal_failure(ProviderErrorKind::Response, problem@),
                _ => e@ == crate::providers::fal::fal_failure(
                    ProviderErrorKind::Response,
                    "fal submission is missing request_id"@,
                ),
            },
        },
{
    let id = match payload.get_str("request_id") {
        Some(id) => id,
        None => {
            return Err(response_error("fal submission is missing request_id"));
        },
    };
    if id.is_empty() {
        return Err(response_error("fal submission is missing request_id"));
    }
    if let Some(problem) = locator_problem {
        return Err(response_error(problem.as_str()));
    }
    let locator = locator_in(endpoint_id, id, payload);
    Ok(
        VideoJob {
            provider_id: ProviderId::fal(),
            id: id.to_owned(),
            status: JobStatus::Pending,
            polling_url: write_locator(&locator),
            generation_id: None,
            unsigned_urls: Vec::new(),
            usage: empty_object(),
            error: None,
            locator,
            artifacts: Vec::new(),
            raw: copy_json(payload),
        },
    )
}

/// The job as a status answer reports it.
pub fn fal_status_job(endpoint_id: &str, request_id: &str, payload: &Json) -> (job: VideoJob)
    ensures
        job.provider_id@ == FAL_PROVIDER_ID@,
        job.id@ == request_id@,
        job.status@ == reported_status(payload@),
        crate::domain::opt_view(job.error) == payload_error(payload@),
        job.locator@ == answered_locator(endpoint_id@, request_id@, payload@),
        job.usage@ == metrics(payload@),
        job.raw@ == payload@,
        job.generation_id is None,
        job.polling_url@ == written_locator(job.locator@),
        job.artifacts@.len() == 0 && job.unsigned_urls@.len() == 0,
{
    let error = fal_payload_error(payload);
    let status = if error.is_some() {
        JobStatus::Failed
    } else {
        match payload.get_str("status") {
            Some(raw) => status_of(raw),
            None => status_of("UNKNOWN"),
        }
    };
    let locator = locator_in(endpoint_id, request_id, payload);
    VideoJob {
        provider_id: ProviderId::fal(),
        id: request_id.to_owned(),
        status,
        polling_url: write_locator(&locator),
        generation_id: None,
        unsigned_urls: Vec::new(),
        usage: metrics_in(payload),
        error,
        locator,
        artifacts: Vec::new(),
        raw: copy_json(payload),
    }
}

/// A candidate for the produced video: its URL and what it is said to contain.
pub type Candidate = (Seq<char>, Option<Seq<char>>);

/// Whether a URL, without its query, ends like a video file.
pub open spec fn video_extension(url: Seq<char>) -> bool {
    let path = url.take(crate::text::before_char(url, '?') as int);
    ".mp4"@.is_suffix_of(path) || ".webm"@.is_suffix_of(path) || ".mov"@.is_suffix_of(path)
        || ".mkv"@.is_suffix_of(path)
}

/// What an object says that its URL contains.
pub open spec fn content_type(object: JsonView) -> Option<Seq<char>> {
    match field_or(object, "content_type"@, "mime_type"@) {
        Some(JsonView::Text(kind)) => Some(kind),
        _ => None,
    }
}

/// The candidates in a result, in the order in which they stand. `video` says whether the result
/// was reached through something that is called a video.
pub open spec fn candidates(value: JsonView, video: bool) -> Seq<Candidate>
    decreases value, 1nat, 0nat,
{
    match value {
        JsonView::Object(members) => {
            let kind = content_type(value);
            let inside = video || (kind matches Some(k) && "video/"@.is_prefix_of(k));
            let own = match crate::json::text_field(value, "url"@) {
                Some(url) => if inside || video_extension(url) {
                    seq![(url, kind)]
                } else {
                    Seq::empty()
                },
                None => Seq::empty(),
            };
            own + member_candidates(members, inside)
        },
        JsonView::Array(items) => item_candidates(items, video),
        JsonView::Text(url) => if video && "https://"@.is_prefix_of(url) {
            seq![(url, None)]
        } else {
            Seq::empty()
        },
        _ => Seq::empty(),
    }
}

/// The candidates in an object's members.
pub open spec fn member_candidates(members: Seq<(Seq<char>, JsonView)>, video: bool) -> Seq<
    Candidate,
>
    decreases members, 0nat, 0nat,
{
    if members.len() == 0 {
        Seq::empty()
    } else {
        proof {
            assert(decreases_to!(members => members.last()));
            assert(decreases_to!(members.last() => members.last().1));
        }
        member_candidates(members.drop_last(), video) + candidates(
            members.last().1,
            video || crate::text::occurs(crate::text::lower_text(members.last().0), "video"@),
        )
    }
}

/// The candidates in an array's items.
pub open spec fn item_candidates(items: Seq<JsonView>, video: bool) -> Seq<Candidate>
    decreases items, 0nat, 0nat,
{
    if items.len() == 0 {
        Seq::empty()
    } else {
        item_candidates(items.drop_last(), video) + candidates(items.last(), video)
    }
}

/// A found video: its URL and what it is said to contain.
#[derive(Debug, Clone)]
pub struct FoundVideo {
    pub url: String,
    pub content_type: Option<String>,
}

impl View for FoundVideo {
    type V = Candidate;

    open spec fn view(&self) -> Candidate {
        (self.url@, crate::domain::opt_view(self.content_type))
    }
}

/// The values of found videos.
pub open spec fn found_view(found: Seq<FoundVideo>) -> Seq<Candidate> {
    Seq::new(found.len(), |i: int| found[i]@)
}

fn has_video_extension(url: &str) -> (b: bool)
    ensures
        b == video_extension(url@),
{
    let chars = chars_of(url);
    assert(url@.skip(0) =~= url@);
    let end: usize = char_from(&chars, 0, '?');
    let path = text_of(&chars, 0, end);
    assert(path@ =~= url@.take(end as int));
    let p = path.as_str();
    ends_with_text(p, ".mp4") || ends_with_text(p, ".webm") || ends_with_text(p, ".mov")
        || ends_with_text(p, ".mkv")
}

fn kind_of(object: &Json) -> (kind: Option<String>)
    ensures
        crate::domain::opt_view(kind) == content_type(object@),
{
    let value = match object.get("content_type") {
        Some(value) => Some(value),
        None => object.get("mime_type"),
    };
    match value {
        Some(Json::Text(kind)) => Some(kind.clone()),
        _ => None,
    }
}

fn collect(value: &Json, video: bool, found: &mut Vec<FoundVideo>)
    ensures
        found_view(final(found)@) == found_view(old(found)@) + candidates(value@, video),
    decreases value@, 1nat, 0nat,
{
    broadcast use crate::json::array_view, crate::json::object_view;

    let ghost start = found_view(found@);
    match value {
        Json::Object(members) => {
            let kind = kind_of(value);
            let inside = video || match &kind {
                Some(k) => starts_with_text(k.as_str(), "video/"),
                None => false,
            };
            let ghost view = crate::json::members_view(members@);
            let ghost own = match crate::json::text_field(value@, "url"@) {
                Some(url) => if inside || video_extension(url) {
                    seq![(url, content_type(value@))]
                } else {
                    Seq::empty()
                },
                None => Seq::empty(),
            };
            if let Some(url) = value.get_str("url") {
                if inside || has_video_extension(url) {
                    found.push(FoundVideo { url: url.to_owned(), content_type: kind });
                }
            }
            assert(found_view(found@) =~= start + own);
            let mut i: usize = 0;
            assert(view.take(0) =~= Seq::<(Seq<char>, JsonView)>::empty());
            assert(start + own + member_candidates(view.take(0), inside) =~= start + own);
            while i < members.len()
                invariant
                    i <= members@.len(),
                    view == crate::json::members_view(members@),
                    value@ == JsonView::Object(view),
                    found_view(found@) == start + own + member_candidates(
                        view.take(i as int),
                        inside,
                    ),
                decreases members@.len() - i,
            {
                assert(decreases_to!(value@ => value@->Object_0));
                assert(decreases_to!(value@->Object_0 => view[i as int]));
                assert(decreases_to!(view[i as int] => view[i as int].1));
                assert(view.take(i + 1).drop_last() =~= view.take(i as int));
                assert(view.take(i + 1).last() == (
                    members@[i as int].key@,
                    members@[i as int].value@,
                ));
                let lowered = ascii_lowercase(members[i].key.as_str());
                let deeper = inside || contains_text(lowered.as_str(), "video");
                collect(&members[i].value, deeper, found);
                assert(found_view(found@) =~= start + own + member_candidates(
                    view.take(i + 1),
                    inside,
                ));
                i = i + 1;
            }
            assert(view.take(view.len() as int) =~= view);
            assert(found_view(found@) =~= start + (own + member_candidates(view, inside)));
        },
        Json::Array(items) => {
            let ghost view = crate::json::items_view(items@);
            let mut i: usize = 0;
            assert(view.take(0) =~= Seq::<JsonView>::empty());
            assert(start + item_candidates(view.take(0), video) =~= start);
            while i < items.len()
                invariant
                    i <= items@.len(),
                    view == crate::json::items_view(items@),
                    value@ == JsonView::Array(view),
                    found_view(found@) == start + item_candidates(view.take(i as int), video),
                decreases items@.len() - i,
            {
                assert(decreases_to!(value@ => value@->Array_0));
                assert(decreases_to!(value@->Array_0 => view[i as int]));
                assert(view.take(i + 1).drop_last() =~= view.take(i as int));
                assert(view.take(i + 1).last() == items@[i as int]@);
                collect(&items[i], video, found);
                assert(found_view(found@) =~= start + item_candidates(view.take(i + 1), video));
                i = i + 1;
            }
            assert(view.take(view.len() as int) =~= view);
        },
        Json::Text(url) => {
            if video && starts_with_text(url.as_str(), "https://") {
                found.push(FoundVideo { url: url.clone(), content_type: None });
            }
            assert(found_view(found@) =~= start + candidates(value@, video));
        },
        _ => {
            assert(found_view(found@) =~= start + candidates(value@, video));
        },
    }
}

/// Whether a candidate comes strictly before another: by URL, then one without a content type
/// before one with, then by content type.
pub open spec fn before(a: Candidate, b: Candidate) -> bool {
    crate::text::precedes(a.0, b.0) || (a.0 == b.0 && match (a.1, b.1) {
        (None, Some(_)) => true,
        (Some(x), Some(y)) => crate::text::precedes(x, y),
        _ => false,
    })
}

/// An ascending list with one more candidate in its place.
pub open spec fn placed(list: Seq<Candidate>, c: Candidate) -> Seq<Candidate>
    decreases list.len(),
{
    if list.len() == 0 || before(c, list[0]) {
        seq![c] + list
    } else {
        seq![list[0]] + placed(list.skip(1), c)
    }
}

/// The candidates in ascending order.
pub open spec fn ascending(list: Seq<Candidate>) -> Seq<Candidate>
    decreases list.len(),
{
    if list.len() == 0 {
        list
    } else {
        placed(ascending(list.drop_last()), list.last())
    }
}

/// Of consecutive candidates with the same URL the first alone.
pub open spec fn distinct(list: Seq<Candidate>) -> Seq<Candidate>
    decreases list.len(),
{
    if list.len() == 0 {
        list
    } else {
        let kept = distinct(list.drop_last());
        if kept.len() > 0 && kept.last().0 == list.last().0 {
            kept
        } else {
            kept.push(list.last())
        }
    }
}

/// The videos in a result: one candidate for each URL, in ascending order.
pub open spec fn videos(value: JsonView) -> Seq<Candidate> {
    distinct(ascending(candidates(value, false)))
}

/// Whether the URLs of a list ascend, possibly with repetitions.
spec fn urls_ascend(list: Seq<Candidate>) -> bool {
    forall|i: int, j: int|
        0 <= i < j < list.len() ==> !crate::text::precedes((#[trigger] list[j]).0, (#[trigger] list[i]).0)
}

proof fn precedes_weak(a: Seq<char>, b: Seq<char>, c: Seq<char>)
    requires
        !crate::text::precedes(b, a),
        !crate::text::precedes(c, b),
    ensures
        !crate::text::precedes(c, a),
{
    crate::text::precedes_orders(a, b);
    crate::text::precedes_orders(b, c);
    crate::text::precedes_orders(a, c);
    if crate::text::precedes(c, a) {
        if a != b {
            crate::text::precedes_transitive(c, a, b);
        }
    }
}

proof fn placed_ascends(list: Seq<Candidate>, c: Candidate)
    requires
        urls_ascend(list),
    ensures
        urls_ascend(placed(list, c)),
        forall|i: int|
            0 <= i < placed(list, c).len() ==> (#[trigger] placed(list, c)[i]) == c || exists|j: int|
                0 <= j < list.len() && list[j] == placed(list, c)[i],
    decreases list.len(),
{
    let after = placed(list, c);
    if list.len() == 0 {
    } else if before(c, list[0]) {
        crate::text::precedes_orders(c.0, list[0].0);
        assert forall|i: int, j: int| 0 <= i < j < after.len() implies !crate::text::precedes(
            (#[trigger] after[j]).0,
            (#[trigger] after[i]).0,
        ) by {
            if i == 0 {
                if j > 1 {
                    assert(!crate::text::precedes(list[j - 1].0, list[0].0));
                    precedes_weak(c.0, list[0].0, list[j - 1].0);
                }
            } else {
                assert(after[i] == list[i - 1] && after[j] == list[j - 1]);
            }
        }
        assert forall|i: int| 0 <= i < after.len() implies (#[trigger] after[i]) == c || exists|
            j: int,
        | 0 <= j < list.len() && list[j] == after[i] by {
            if i > 0 {
                assert(list[i - 1] == after[i]);
            }
        }
    } else {
        let rest = list.skip(1);
        assert forall|i: int, j: int| 0 <= i < j < rest.len() implies !crate::text::precedes(
            (#[trigger] rest[j]).0,
            (#[trigger] rest[i]).0,
        ) by {
            assert(rest[i] == list[i + 1] && rest[j] == list[j + 1]);
        }
        placed_ascends(rest, c);
        let deeper = placed(rest, c);
        crate::text::precedes_orders(c.0, list[0].0);
        assert forall|i: int, j: int| 0 <= i < j < after.len() implies !crate::text::precedes(
            (#[trigger] after[j]).0,
            (#[trigger] after[i]).0,
        ) by {
            assert(after[j] == deeper[j - 1]);
            if i == 0 {
                if deeper[j - 1] != c {
                    let k = choose|k: int| 0 <= k < rest.len() && rest[k] == deeper[j - 1];
                    assert(list[k + 1] == after[j]);
                }
            } else {
                assert(after[i] == deeper[i - 1]);
            }
        }
        assert forall|i: int| 0 <= i < after.len() implies (#[trigger] after[i]) == c || exists|
            j: int,
        | 0 <= j < list.len() && list[j] == after[i] by {
            if i == 0 {
                assert(list[0] == after[0]);
            } else {
                assert(after[i] == deeper[i - 1]);
                if deeper[i - 1] != c {
                    let k = choose|k: int| 0 <= k < rest.len() && rest[k] == deeper[i - 1];
                    assert(list[k + 1] == after[i]);
                }
            }
        }
    }
}

proof fn ascending_ascends(list: Seq<Candidate>)
    ensures
        urls_ascend(ascending(list)),
    decreases list.len(),
{
    if list.len() > 0 {
        ascending_ascends(list.drop_last());
        placed_ascends(ascending(list.drop_last()), list.last());
    }
}

proof fn distinct_strictly_ascends(list: Seq<Candidate>)
    requires
        urls_ascend(list),
    ensures
        forall|i: int, j: int|
            0 <= i < j < distinct(list).len() ==> crate::text::precedes(
                (#[trigger] distinct(list)[i]).0,
                (#[trigger] distinct(list)[j]).0,
            ),
        list.len() > 0 ==> distinct(list).len() > 0 && distinct(list).last().0 == list.last().0,
    decreases list.len(),
{
    if list.len() > 0 {
        let rest = list.drop_last();
        assert forall|i: int, j: int| 0 <= i < j < rest.len() implies !crate::text::precedes(
            (#[trigger] rest[j]).0,
            (#[trigger] rest[i]).0,
        ) by {
            assert(rest[i] == list[i] && rest[j] == list[j]);
        }
        distinct_strictly_ascends(rest);
        let kept = distinct(rest);
        let all = distinct(list);
        if rest.len() > 0 {
            assert(!crate::text::precedes(list[list.len() - 1].0, list[rest.len() - 1].0));
            crate::text::precedes_orders(list.last().0, rest.last().0);
        }
        assert forall|i: int, j: int| 0 <= i < j < all.len() implies crate::text::precedes(
            (#[trigger] all[i]).0,
            (#[trigger] all[j]).0,
        ) by {
            if j < kept.len() {
                assert(all[i] == kept[i] && all[j] == kept[j]);
            } else {
                assert(all[i] == kept[i]);
                if i < kept.len() - 1 {
                    crate::text::precedes_transitive(kept[i].0, kept.last().0, list.last().0);
                }
            }
        }
    }
}

/// The videos in a result have different URLs, in ascending order.
pub proof fn videos_have_distinct_urls(value: JsonView)
    ensures
        forall|i: int, j: int|
            0 <= i < j < videos(value).len() ==> crate::text::precedes(
                (#[trigger] videos(value)[i]).0,
                (#[trigger] videos(value)[j]).0,
            ),
{
    ascending_ascends(candidates(value, false));
    distinct_strictly_ascends(ascending(candidates(value, false)));
}

fn is_before(a: &FoundVideo, b: &FoundVideo) -> (r: bool)
    ensures
        r == before(a@, b@),
{
    comes_before(a.url.as_str(), b.url.as_str()) || (a.url == b.url && match (
        &a.content_type,
        &b.content_type,
    ) {
        (None, Some(_)) => true,
        (Some(x), Some(y)) => comes_before(x.as_str(), y.as_str()),
        _ => false,
    })
}

fn place(list: &mut Vec<FoundVideo>, video: FoundVideo)
    ensures
        found_view(final(list)@) == placed(found_view(old(list)@), video@),
{
    let ghost start = found_view(list@);
    let mut i: usize = 0;
    assert(start.skip(0) =~= start);
    assert(start.take(0) =~= Seq::<Candidate>::empty());
    while i < list.len() && !is_before(&video, &list[i])
        invariant
            i <= list@.len(),
            start == found_view(list@),
            list@ == old(list)@,
            placed(start, video@) == start.take(i as int) + placed(start.skip(i as int), video@),
        decreases list@.len() - i,
    {
        proof {
            let rest = start.skip(i as int);
            assert(rest[0] == list@[i as int]@);
            assert(rest.skip(1) =~= start.skip(i + 1));
            assert(start.take(i as int) + (seq![rest[0]] + placed(start.skip(i + 1), video@))
                =~= start.take(i + 1) + placed(start.skip(i + 1), video@));
        }
        i = i + 1;
    }
    proof {
        let rest = start.skip(i as int);
        if i < list@.len() {
            assert(rest[0] == list@[i as int]@);
        }
        assert(placed(rest, video@) == seq![video@] + rest);
    }
    list.insert(i, video);
    assert(found_view(list@) =~= start.take(i as int) + (seq![video@] + start.skip(i as int)));
}

fn copy_found(video: &FoundVideo) -> (c: FoundVideo)
    ensures
        c@ == video@,
{
    FoundVideo {
        url: video.url.clone(),
        content_type: crate::domain::copy_text(&video.content_type),
    }
}

/// Finds the videos in a result, one for each URL, in ascending order.
pub fn find_videos(value: &Json) -> (found: Vec<FoundVideo>)
    ensures
        found_view(found@) == videos(value@),
{
    let mut all: Vec<FoundVideo> = Vec::new();
    assert(found_view(all@) =~= Seq::<Candidate>::empty());
    collect(value, false, &mut all);
    let ghost list = candidates(value@, false);
    assert(found_view(all@) =~= list);
    let mut sorted: Vec<FoundVideo> = Vec::new();
    let mut i: usize = 0;
    assert(list.take(0) =~= Seq::<Candidate>::empty());
    assert(found_view(sorted@) =~= Seq::<Candidate>::empty());
    while i < all.len()
        invariant
            i <= all@.len(),
            list == found_view(all@),
            found_view(sorted@) == ascending(list.take(i as int)),
        decreases all@.len() - i,
    {
        assert(list.take(i + 1).drop_last() =~= list.take(i as int));
        assert(list.take(i + 1).last() == all@[i as int]@);
        let video = copy_found(&all[i]);
        place(&mut sorted, video);
        i = i + 1;
    }
    assert(list.take(list.len() as int) =~= list);
    let ghost ordered = found_view(sorted@);
    let mut found: Vec<FoundVideo> = Vec::new();
    let mut k: usize = 0;
    assert(ordered.take(0) =~= Seq::<Candidate>::empty());
    assert(found_view(found@) =~= Seq::<Candidate>::empty());
    while k < sorted.len()
        invariant
            k <= sorted@.len(),
            ordered == found_view(sorted@),
            found_view(found@) == distinct(ordered.take(k as int)),
        decreases sorted@.len() - k,
    {
        assert(ordered.take(k + 1).drop_last() =~= ordered.take(k as int));
        assert(ordered.take(k + 1).last() == sorted@[k as int]@);
        let n: usize = found.len();
        let ghost kept = found_view(found@);
        assert(kept.len() == n);
        if n > 0 && found[n - 1].url == sorted[k].url {
            assert(kept.last() == found@[n - 1]@);
        } else {
            if n > 0 {
                assert(kept.last() == found@[n - 1]@);
            }
            let video = copy_found(&sorted[k]);
            found.push(video);
            assert(found_view(found@) =~= kept.push(sorted@[k as int]@));
        }
        k = k + 1;
    }
    assert(ordered.take(ordered.len() as int) =~= ordered);
    found
}

/// The found videos that are safe to fetch, numbered by their place among all that were found.
/// `safe` says of each whether its URL may be fetched.
pub open spec fn numbered(found: Seq<Candidate>, safe: Seq<bool>) -> Seq<(Candidate, nat)>
    decreases found.len(),
{
    if found.len() == 0 {
        Seq::empty()
    } else if safe[found.len() - 1] {
        numbered(found.drop_last(), safe).push((found.last(), (found.len() - 1) as nat))
    } else {
        numbered(found.drop_last(), safe)
    }
}

/// The values of artifacts.
pub open spec fn artifacts_view(artifacts: Seq<VideoArtifact>) -> Seq<(Candidate, nat)> {
    Seq::new(
        artifacts.len(),
        |i: int|
            ((artifacts[i].url@, crate::domain::opt_view(artifacts[i].content_type)), artifacts[i].index as nat),
    )
}

/// Turns the found videos that are safe to fetch into artifacts.
pub fn extract_video_artifacts(found: &Vec<FoundVideo>, safe: &Vec<bool>) -> (artifacts: Vec<
    VideoArtifact,
>)
    requires
        safe@.len() == found@.len(),
    ensures
        artifacts_view(artifacts@) == numbered(found_view(found@), safe@),
{
    let ghost view = found_view(found@);
    let mut artifacts: Vec<VideoArtifact> = Vec::new();
    let mut i: usize = 0;
    assert(view.take(0) =~= Seq::<Candidate>::empty());
    assert(artifacts_view(artifacts@) =~= Seq::<(Candidate, nat)>::empty());
    while i < found.len()
        invariant
            i <= found@.len(),
            safe@.len() == found@.len(),
            view == found_view(found@),
            artifacts_view(artifacts@) == numbered(view.take(i as int), safe@),
        decreases found@.len() - i,
    {
        assert(view.take(i + 1).drop_last() =~= view.take(i as int));
        assert(view.take(i + 1).last() == found@[i as int]@);
        let ghost before_push = artifacts_view(artifacts@);
        if safe[i] {
            artifacts.push(
                VideoArtifact {
                    url: found[i].url.clone(),
                    index: i,
                    content_type: crate::domain::copy_text(&found[i].content_type),
                },
            );
            assert(artifacts_view(artifacts@) =~= before_push.push((found@[i as int]@, i as nat)));
        }
        i = i + 1;
    }
    assert(view.take(view.len() as int) =~= view);
    artifacts
}

/// The part of a result answer that holds the result.
pub open spec fn result_data(payload: JsonView) -> JsonView {
    match crate::json::field(payload, "data"@) {
        Some(data) => data,
        None => payload,
    }
}

/// The videos in a result answer.
pub fn result_videos(result: &Json) -> (found: Vec<FoundVideo>)
    ensures
        found_view(found@) == videos(result_data(result@)),
        crate::json::field(result@, "data"@) is None ==> found_view(found@) == videos(result@),
        crate::json::field(result@, "data"@) matches Some(data) ==> found_view(found@) == videos(
            data,
        ),
{
    match result.get("data") {
        Some(data) => find_videos(data),
        None => find_videos(result),
    }
}

/// The finished job: there must be exactly one video. `artifacts` are those of the result answer
/// that are safe to fetch.
pub fn fal_result_job(
    endpoint_id: &str,
    request_id: &str,
    status: &Json,
    result: &Json,
    artifacts: Vec<VideoArtifact>,
) -> (r: Result<VideoJob, ProviderError>)
    ensures
        match r {
            Ok(job) => {
                &&& artifacts@.len() == 1
                &&& job.artifacts == artifacts
                &&& job.provider_id@ == FAL_PROVIDER_ID@
                &&& job.id@ == request_id@
                &&& job.status@ == StatusView::Completed
                &&& job.unsigned_urls@.len() == 1 && job.unsigned_urls@[0]@ == artifacts@[0].url@
                &&& job.usage@ == metrics(status@)
                &&& job.error is None && job.generation_id is None
                &&& job.polling_url@ == written_locator(job.locator@)
                &&& job.locator@ == answered_locator(endpoint_id@, request_id@, status@)
                &&& job.raw@ == JsonView::Object(seq![("result"@, result@), ("status"@, status@)])
            },
            Err(e) => artifacts@.len() != 1 && e@ == crate::providers::fal::fal_failure(
                ProviderErrorKind::Response,
                "fal completed without exactly one unambiguous video URL"@,
            ),
        },
{
    broadcast use crate::json::object_view;

    if artifacts.len() != 1 {
        return Err(response_error("fal completed without exactly one unambiguous video URL"));
    }
    let mut urls: Vec<String> = Vec::new();
    urls.push(artifacts[0].url.clone());
    let mut members: Vec<Member> = Vec::new();
    members.push(Member { key: "result".to_owned(), value: copy_json(result) });
    members.push(Member { key: "status".to_owned(), value: copy_json(status) });
    let raw = Json::Object(members);
    assert(raw@->Object_0 =~= seq![("result"@, result@), ("status"@, status@)]);
    let locator = locator_in(endpoint_id, request_id, status);
    Ok(
        VideoJob {
            provider_id: ProviderId::fal(),
            id: request_id.to_owned(),
            status: JobStatus::Completed,
            polling_url: write_locator(&locator),
            generation_id: None,
            unsigned_urls: urls,
            usage: metrics_in(status),
            error: None,
            locator,
            artifacts,
            raw,
        },
    )
}

/// Whether a status answer says that the result is there to be fetched.
pub open spec fn result_ready(status: JsonView) -> bool {
    crate::text::upper_text(raw_status(status)) == "COMPLETED"@ && payload_error(status) is None
}

/// What to do after a status answer.
#[derive(Debug)]
pub enum PollStep {
    /// Report the job as it stands.
    Report(VideoJob),
    /// Fetch the result from this URL, which the locator has.
    FetchFrom(String),
    /// Fetch the result from the queue.
    FetchFromQueue,
}

/// Decides what to do after a status answer.
pub fn after_status(
    endpoint_id: &str,
    request_id: &str,
    response_url: &Option<String>,
    status: &Json,
) -> (step: PollStep)
    ensures
        match step {
            PollStep::Report(job) => !result_ready(status@) && job.status@ == reported_status(status@)
                && job.id@ == request_id@ && job.provider_id@ == FAL_PROVIDER_ID@ && crate::domain::opt_view(
                job.error,
            ) == payload_error(status@) && job.locator@ == answered_locator(
                endpoint_id@,
                request_id@,
                status@,
            ) && job.usage@ == metrics(status@) && job.raw@ == status@ && job.generation_id is None
                && job.polling_url@ == written_locator(job.locator@) && job.artifacts@.len() == 0
                && job.unsigned_urls@.len() == 0,
            PollStep::FetchFrom(url) => result_ready(status@) && crate::domain::opt_view(*response_url) == Some(url@),
            PollStep::FetchFromQueue => result_ready(status@) && response_url is None,
        },
{
    let state = match status.get_str("status") {
        Some(name) => name,
        None => "UNKNOWN",
    };
    let upper = ascii_uppercase(state);
    if !same_text(upper.as_str(), "COMPLETED") || fal_payload_error(status).is_some() {
        return PollStep::Report(fal_status_job(endpoint_id, request_id, status));
    }
    match response_url {
        Some(url) => PollStep::FetchFrom(url.clone()),
        None => PollStep::FetchFromQueue,
    }
}

/// A job is reported as completed by its status alone never: its result is fetched first.
pub proof fn completion_needs_a_result(status: JsonView)
    ensures
        !result_ready(status) ==> reported_status(status) != StatusView::Completed,
{
}

/// Whether the result is to be looked for at the job's own URL, because its response URL is not
/// there.
pub fn result_fallback(error: &ProviderError) -> (b: bool)
    ensures
        b == (error.status_code == Some(404u16)),
{
    match error.status_code {
        Some(code) => code == 404,
        None => false,
    }
}

/// The job that is asked about.
#[derive(Debug)]
pub struct PollTarget {
    pub endpoint_id: String,
    pub request_id: String,
    pub response_url: Option<String>,
}

/// Finds out which job of fal.ai a locator leads to. `problem` says what is wrong with the locator.
pub fn poll_target(locator: &JobLocator, problem: Option<String>) -> (r: Result<
    PollTarget,
    ProviderError,
>)
    ensures
        match locator@ {
            LocatorView::OpenRouter { .. } => r matches Err(e) && e@
                == crate::providers::fal::fal_failure(
                ProviderErrorKind::Validation,
                "fal cannot poll a locator owned by another provider"@,
            ),
            LocatorView::Fal { endpoint_id, request_id, response_url, .. } => match problem {
                Some(message) => r matches Err(e) && e@ == crate::providers::fal::fal_failure(
                    ProviderErrorKind::Validation,
                    message@,
                ),
                None => r matches Ok(target) && target.endpoint_id@ == endpoint_id
                    && target.request_id@ == request_id && crate::domain::opt_view(
                    target.response_url,
                ) == response_url,
            },
        },
{
    match locator {
        JobLocator::OpenRouter { .. } => Err(
            validation("fal cannot poll a locator owned by another provider"),
        ),
        JobLocator::Fal { endpoint_id, request_id, response_url, .. } => match problem {
            Some(message) => Err(validation(message.as_str())),
            None => Ok(
                PollTarget {
                    endpoint_id: endpoint_id.clone(),
                    request_id: request_id.clone(),
                    response_url: copy_text(response_url),
                },
            ),
        },
    }
}

} // verus!
