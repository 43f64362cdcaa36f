//! What the exchange with providers promises: which failures an answer stands for, what is sent
//! again and what never is, what a file is sent as, and which drafts and requests are refused.

use crate::domain::{
    DraftMedia, GenerationDraft, InputReference, MediaKind, MediaSource, ProviderDescriptor,
    Timestamp, VideoRequest,
};
use crate::gui_state::StoredUploadReceipt;
use crate::json::JsonView;
use crate::providers::fal_http::{BodyView, ExchangeView, RequestKind, RetryPolicy, StepView};
use crate::providers::fal_transfer::{Sending, UploadedPart};
use crate::providers::openrouter::ApiErrorKind;
use crate::providers::{DraftFindings, MediaCapabilities, ProviderErrorKind};
use vstd::prelude::*;

verus! {

/// Whether a hint speaks of money.
pub open spec fn hints_at_money(hint: Seq<char>) -> bool {
    crate::text::occurs(hint, "insufficient credit"@) || crate::text::occurs(
        hint,
        "insufficient_credit"@,
    ) || crate::text::occurs(hint, "balance"@)
}

/// Whether a hint speaks of rules on content.
pub open spec fn hints_at_content(hint: Seq<char>) -> bool {
    crate::text::occurs(hint, "content policy"@) || crate::text::occurs(hint, "content_policy"@)
        || crate::text::occurs(hint, "moderation"@) || crate::text::occurs(hint, "safety"@)
}

/// What a failure says comes first: of money, then of content. Where it says neither, the status
/// decides.
pub proof fn failures_are_told_apart(status: u16, hint: Seq<char>)
    ensures
        ({
            let kind = crate::providers::fal_http::failure_kind(status, hint);
            let silent = !hints_at_money(hint) && !hints_at_content(hint);
            &&& hints_at_money(hint) ==> kind == ProviderErrorKind::InsufficientCredits
            &&& !hints_at_money(hint) && hints_at_content(hint) ==> kind
                == ProviderErrorKind::ContentPolicy
            &&& silent && (status == 401 || status == 403) <==> kind
                == ProviderErrorKind::Authentication
            &&& silent && status == 402 ==> kind == ProviderErrorKind::InsufficientCredits
            &&& silent && (status == 400 || status == 404 || status == 409 || status == 422)
                <==> kind == ProviderErrorKind::Validation
            &&& silent && status == 429 <==> kind == ProviderErrorKind::RateLimit
            &&& silent && 500 <= status <= 599 <==> kind == ProviderErrorKind::Unavailable
            &&& kind == ProviderErrorKind::ContentPolicy ==> hints_at_content(hint)
            &&& kind == ProviderErrorKind::InsufficientCredits ==> hints_at_money(hint) || status
                == 402
            &&& kind != ProviderErrorKind::SubmissionUncertain
            &&& kind != ProviderErrorKind::Network
        }),
{
}

proof fn unmentioned_is_kept(text: Seq<char>, pat: Seq<char>, with: Seq<char>)
    requires
        !crate::text::occurs(text, pat),
    ensures
        crate::text::replaced(text, pat, with) == text,
    decreases text.len(),
{
    if pat.len() == 0 || text.len() < pat.len() {
    } else {
        if text.take(pat.len() as int) == pat {
            assert(text.subrange(0, pat.len() as int) =~= text.take(pat.len() as int));
            assert(crate::text::occurs_at(text, pat, 0));
        }
        let rest = text.skip(1);
        if crate::text::occurs(rest, pat) {
            let i = choose|i: int| #[trigger] crate::text::occurs_at(rest, pat, i);
            assert(text.subrange(i + 1, i + 1 + pat.len()) =~= rest.subrange(i, i + pat.len()));
            assert(crate::text::occurs_at(text, pat, i + 1));
        }
        unmentioned_is_kept(rest, pat, with);
        assert(seq![text[0]] + rest =~= text);
    }
}

/// A refusal keeps the status, the wait that the answer asks for, and the message and the code that
/// do not hold the key; it always says something.
pub proof fn refusals_repeat_the_answer(
    status: u16,
    retry_after: Option<Seq<char>>,
    payload: JsonView,
    secret: Seq<char>,
)
    ensures
        ({
            let error = crate::providers::fal_http::refusal(status, retry_after, payload, secret);
            let (message, code) = crate::providers::fal_jobs::error_texts(payload);
            &&& error.provider_id == "fal"@
            &&& error.status_code == Some(status)
            &&& error.message.len() > 0
            &&& message.len() > 0 && !crate::text::occurs(message, secret) ==> error.message
                == message
            &&& message.len() == 0 ==> error.message == "fal.ai request failed with HTTP "@
                + crate::text::numeral(status as nat)
            &&& code is None ==> error.code is None
            &&& code matches Some(c) ==> (!crate::text::occurs(c, secret) ==> error.code == Some(
                c,
            ))
            &&& retry_after is None ==> error.retry_after_seconds is None
            &&& retry_after matches Some(text) ==> (crate::text::parsed_unsigned(
                text,
                u64::MAX as nat,
            ) matches Some(n) ==> error.retry_after_seconds == Some(n as u64))
        }),
{
    let (message, code) = crate::providers::fal_jobs::error_texts(payload);
    reveal_strlit("fal.ai request failed with HTTP ");
    assert("fal.ai request failed with HTTP "@.len() > 0);
    if !crate::text::occurs(message, secret) {
        unmentioned_is_kept(message, secret, crate::providers::fal_http::REDACTED@);
    }
    if let Some(c) = code {
        if !crate::text::occurs(c, secret) {
            unmentioned_is_kept(c, secret, crate::providers::fal_http::REDACTED@);
        }
    }
    if message.len() == 0 {
        assert(crate::text::replaced(message, secret, crate::providers::fal_http::REDACTED@)
            == message);
    }
}

/// Taking out the key leaves a document that does not mention it as it is.
pub proof fn other_documents_are_kept(value: JsonView, secret: Seq<char>)
    requires
        !crate::providers::fal_http::mentions(value, secret),
    ensures
        crate::providers::fal_http::redacted(value, secret) == value,
    decreases value, 1nat,
{
    match value {
        JsonView::Text(text) => {
            unmentioned_is_kept(text, secret, crate::providers::fal_http::REDACTED@);
        },
        JsonView::Array(items) => {
            other_items_are_kept(items, secret);
        },
        JsonView::Object(members) => {
            other_members_are_kept(members, secret);
        },
        _ => {},
    }
}

proof fn other_items_are_kept(items: Seq<JsonView>, secret: Seq<char>)
    requires
        !crate::providers::fal_http::items_mention(items, secret),
    ensures
        crate::providers::fal_http::redacted_items(items, secret) == items,
    decreases items, 0nat,
{
    if items.len() > 0 {
        other_items_are_kept(items.drop_last(), secret);
        other_documents_are_kept(items.last(), secret);
        assert(items.drop_last().push(items.last()) =~= items);
    }
}

proof fn other_members_are_kept(members: Seq<(Seq<char>, JsonView)>, secret: Seq<char>)
    requires
        !crate::providers::fal_http::members_mention(members, secret),
    ensures
        crate::providers::fal_http::redacted_members(members, secret) == members,
    decreases members, 0nat,
{
    if members.len() > 0 {
        assert(decreases_to!(members => members.last()));
        assert(decreases_to!(members.last() => members.last().1));
        other_members_are_kept(members.drop_last(), secret);
        other_documents_are_kept(members.last().1, secret);
        assert(members.drop_last().push((members.last().0, members.last().1)) =~= members);
    }
}

/// Whether a request is answered with a status after which it is worth sending again.
pub open spec fn passing_trouble(status: u16) -> bool {
    status == 408 || status == 425 || status == 429 || status == 500 || status == 502 || status
        == 503 || status == 504
}

/// A paid submission is sent once: whatever comes back, it is not sent again. Where it may have
/// been received, the failure says that it is uncertain.
pub proof fn submissions_are_sent_once(
    policy: RetryPolicy,
    attempt: nat,
    exchange: ExchangeView,
    document: Option<JsonView>,
    secret: Seq<char>,
)
    requires
        !policy.retry_safe,
    ensures
        ({
            let step = crate::providers::fal_http::step_after(
                policy,
                attempt,
                exchange,
                document,
                secret,
            );
            &&& step is Fail || step is Done
            &&& exchange is Unreachable ==> (step matches StepView::Fail(e) && e.kind
                == ProviderErrorKind::SubmissionUncertain)
            &&& exchange matches ExchangeView::Answered { status, body, .. } ==> ({
                &&& 200 <= status < 300 && step is Fail ==> (step matches StepView::Fail(e)
                    && e.kind == ProviderErrorKind::SubmissionUncertain)
                &&& !(200 <= status < 500) || status == 408 ==> (step matches StepView::Fail(e)
                    && e.kind == ProviderErrorKind::SubmissionUncertain && e.status_code == Some(
                    status,
                ))
                &&& status == 400 || status == 401 || status == 402 || status == 403 || status
                    == 404 || status == 409 || status == 422 || status == 429 ==> (
                step matches StepView::Fail(e) && e.kind != ProviderErrorKind::SubmissionUncertain
                    && e.status_code == Some(status))
                &&& step is Done ==> 200 <= status < 300
            })
        }),
{
    if let ExchangeView::Answered { status, retry_after, body } = exchange {
        let payload = match document {
            Some(json) => json,
            None => JsonView::Null,
        };
        refusals_repeat_the_answer(status, retry_after, payload, secret);
    }
}

/// A request that may be repeated is sent again after passing trouble, and where no answer came, as
/// long as there are attempts left: after the wait that the answer asks for, or after a wait that
/// doubles. After anything else it is not.
pub proof fn safe_requests_are_repeated(
    policy: RetryPolicy,
    attempt: nat,
    exchange: ExchangeView,
    document: Option<JsonView>,
    secret: Seq<char>,
)
    requires
        policy.retry_safe,
    ensures
        ({
            let step = crate::providers::fal_http::step_after(
                policy,
                attempt,
                exchange,
                document,
                secret,
            );
            let left = attempt < policy.max_retries;
            &&& exchange is Unreachable && left ==> step is Backoff
            &&& exchange is Unreachable && !left ==> (step matches StepView::Fail(e) && e.kind
                == ProviderErrorKind::Network)
            &&& exchange matches ExchangeView::Answered { status, retry_after, body } ==> ({
                &&& passing_trouble(status) && left ==> step is Wait || step is Backoff
                &&& passing_trouble(status) && left && retry_after is None ==> step is Backoff
                &&& passing_trouble(status) && left ==> (retry_after matches Some(text) ==> (
                crate::text::parsed_unsigned(text, u64::MAX as nat) matches Some(n) ==> step
                    == StepView::Wait(n as u64)))
                &&& !passing_trouble(status) || !left ==> step is Fail || step is Done
                &&& step is Done ==> 200 <= status < 300
                &&& step matches StepView::Fail(e) ==> e.kind
                    != ProviderErrorKind::SubmissionUncertain
                &&& !(200 <= status < 300) && step is Fail ==> (step matches StepView::Fail(e)
                    && e.status_code == Some(status))
            })
        }),
{
}

/// An answer that succeeds and holds an object is handed on, without the key; one that breaks off,
/// is too large, is no JSON or no object is a failure, whose kind tells which.
pub proof fn good_answers_are_handed_on(
    policy: RetryPolicy,
    attempt: nat,
    status: u16,
    retry_after: Option<Seq<char>>,
    bytes: Seq<u8>,
    members: Seq<(Seq<char>, JsonView)>,
    other: Option<JsonView>,
    secret: Seq<char>,
)
    requires
        200 <= status < 300,
        !crate::providers::fal_http::mentions(JsonView::Object(members), secret),
    ensures
        crate::providers::fal_http::step_after(
            policy,
            attempt,
            ExchangeView::Answered { status, retry_after, body: BodyView::Bytes(bytes) },
            Some(JsonView::Object(members)),
            secret,
        ) == StepView::Done(JsonView::Object(members)),
        crate::providers::fal_http::step_after(
            policy,
            attempt,
            ExchangeView::Answered { status, retry_after, body: BodyView::Bytes(bytes) },
            None,
            secret,
        ) is Fail,
        crate::providers::fal_http::step_after(
            policy,
            attempt,
            ExchangeView::Answered { status, retry_after, body: BodyView::Interrupted },
            other,
            secret,
        ) matches StepView::Fail(e) && (policy.retry_safe ==> e.kind == ProviderErrorKind::Network),
        crate::providers::fal_http::step_after(
            policy,
            attempt,
            ExchangeView::Answered { status, retry_after, body: BodyView::TooLarge },
            other,
            secret,
        ) matches StepView::Fail(e) && (policy.retry_safe ==> e.kind
            == ProviderErrorKind::Response),
{
    other_documents_are_kept(JsonView::Object(members), secret);
}

/// The wait before a request is sent again starts with the base delay and doubles, up to a limit.
pub proof fn waits_double(attempt: nat)
    ensures
        crate::providers::fal_http::backoff_factor(0) == 1,
        attempt < 16 ==> crate::providers::fal_http::backoff_factor(attempt + 1) == 2
            * crate::providers::fal_http::backoff_factor(attempt),
        attempt >= 16 ==> crate::providers::fal_http::backoff_factor(attempt)
            == crate::providers::fal_http::backoff_factor(16),
{
    vstd::arithmetic::power2::lemma2_to64();
    vstd::arithmetic::power2::lemma_pow2_unfold(attempt + 1);
}

/// Only a paid submission may not be repeated; only it and the request for a place for an upload are
/// posted; what the catalog says is asked for without the key, and everything else with it.
pub proof fn requests_have_their_manner(kind: RequestKind)
    ensures
        kind.spec_manner().retry_safe <==> !(kind is Submission),
        kind.spec_manner().posts <==> kind is Submission || kind is UploadPlace,
        kind.spec_manner().authenticated <==> kind is Credentials || kind is Price
            || kind is UploadPlace || kind is Submission || kind is Status || kind is Output,
{
}

/// A file is announced as what its extension says, in letters of either case.
pub proof fn files_are_announced_by_extension(path: Seq<char>, extension: Seq<char>)
    requires
        crate::paths::extension_of(path) == Some(extension),
    ensures
        ({
            let small = crate::text::lower_text(extension);
            let kind = crate::providers::fal_transfer::content_type_of(path);
            &&& small == "png"@ ==> kind == "image/png"@
            &&& small == "jpg"@ || small == "jpeg"@ ==> kind == "image/jpeg"@
            &&& small == "webp"@ ==> kind == "image/webp"@
            &&& small == "gif"@ ==> kind == "image/gif"@
            &&& small == "avif"@ ==> kind == "image/avif"@
            &&& small == "bmp"@ ==> kind == "image/bmp"@
            &&& small == "tif"@ || small == "tiff"@ ==> kind == "image/tiff"@
            &&& small == "mp4"@ || small == "m4v"@ ==> kind == "video/mp4"@
            &&& small == "webm"@ ==> kind == "video/webm"@
            &&& small == "mov"@ ==> kind == "video/quicktime"@
            &&& small == "mkv"@ ==> kind == "video/x-matroska"@
            &&& small == "txt"@ || small == "mp3"@ ==> kind == "application/octet-stream"@
        }),
{
    extensions_differ();
}

proof fn extensions_differ()
    ensures
        seq![
            "png"@,
            "jpg"@,
            "jpeg"@,
            "webp"@,
            "gif"@,
            "avif"@,
            "bmp"@,
            "tif"@,
            "tiff"@,
            "mp4"@,
            "m4v"@,
            "webm"@,
            "mov"@,
            "mkv"@,
            "txt"@,
            "mp3"@,
        ].no_duplicates(),
        "png"@ != "jpg"@ && "png"@ != "gif"@ && "png"@ != "bmp"@ && "png"@ != "tif"@ && "png"@
            != "mp4"@ && "png"@ != "m4v"@ && "png"@ != "mov"@ && "png"@ != "mkv"@ && "png"@
            != "txt"@ && "png"@ != "mp3"@,
{
    reveal_strlit("png");
    reveal_strlit("jpg");
    reveal_strlit("jpeg");
    reveal_strlit("webp");
    reveal_strlit("gif");
    reveal_strlit("avif");
    reveal_strlit("bmp");
    reveal_strlit("tif");
    reveal_strlit("tiff");
    reveal_strlit("mp4");
    reveal_strlit("m4v");
    reveal_strlit("webm");
    reveal_strlit("mov");
    reveal_strlit("mkv");
    reveal_strlit("txt");
    reveal_strlit("mp3");
    assert("png"@.len() == 3 && "jpg"@.len() == 3 && "jpeg"@.len() == 4 && "webp"@.len() == 4);
    assert("gif"@.len() == 3 && "avif"@.len() == 4 && "bmp"@.len() == 3 && "tif"@.len() == 3);
    assert("tiff"@.len() == 4 && "mp4"@.len() == 3 && "m4v"@.len() == 3 && "webm"@.len() == 4);
    assert("mov"@.len() == 3 && "mkv"@.len() == 3 && "txt"@.len() == 3 && "mp3"@.len() == 3);
    assert("png"@[0] == 'p' && "jpg"@[0] == 'j' && "gif"@[0] == 'g' && "bmp"@[0] == 'b');
    assert("tif"@[0] == 't' && "mp4"@[0] == 'm' && "m4v"@[0] == 'm' && "mov"@[0] == 'm');
    assert("mkv"@[0] == 'm' && "txt"@[0] == 't' && "mp3"@[0] == 'm');
    assert("tif"@[1] == 'i' && "txt"@[1] == 'x');
    assert("mp4"@[1] == 'p' && "m4v"@[1] == '4' && "mov"@[1] == 'o' && "mkv"@[1] == 'k');
    assert("mp3"@[1] == 'p' && "mp4"@[2] == '4' && "mp3"@[2] == '3');
    assert("jpeg"@[0] == 'j' && "webp"@[0] == 'w' && "avif"@[0] == 'a' && "tiff"@[0] == 't');
    assert("webm"@[0] == 'w' && "webp"@[3] == 'p' && "webm"@[3] == 'm');
    let all = seq![
        "png"@,
        "jpg"@,
        "jpeg"@,
        "webp"@,
        "gif"@,
        "avif"@,
        "bmp"@,
        "tif"@,
        "tiff"@,
        "mp4"@,
        "m4v"@,
        "webm"@,
        "mov"@,
        "mkv"@,
        "txt"@,
        "mp3"@,
    ];
    assert(all[0] == "png"@ && all[1] == "jpg"@ && all[2] == "jpeg"@ && all[3] == "webp"@);
    assert(all[4] == "gif"@ && all[5] == "avif"@ && all[6] == "bmp"@ && all[7] == "tif"@);
    assert(all[8] == "tiff"@ && all[9] == "mp4"@ && all[10] == "m4v"@ && all[11] == "webm"@);
    assert(all[12] == "mov"@ && all[13] == "mkv"@ && all[14] == "txt"@ && all[15] == "mp3"@);
}

/// A file is sent under a name, and one without control characters; a plain name is its own.
pub proof fn files_are_sent_under_plain_names(path: Seq<char>)
    ensures
        crate::providers::fal_transfer::upload_name_of(path).len() > 0,
        crate::paths::name_of(path) is None ==> crate::providers::fal_transfer::upload_name_of(path)
            == "reference.bin"@,
        crate::paths::name_of(path) matches Some(name) ==> (name.len() > 0 && (forall|i: int|
            0 <= i < name.len() ==> #[trigger] name[i] as u32 > 0x1f && !(0x7f <= name[i] as u32
                <= 0x9f)) ==> crate::providers::fal_transfer::upload_name_of(path) == name),
{
    reveal_strlit("reference.bin");
    if let Some(name) = crate::paths::name_of(path) {
        if forall|i: int|
            0 <= i < name.len() ==> #[trigger] name[i] as u32 > 0x1f && !(0x7f <= name[i] as u32
                <= 0x9f) {
            printable_is_kept(name);
        }
    }
}

proof fn printable_is_kept(name: Seq<char>)
    requires
        forall|i: int|
            0 <= i < name.len() ==> #[trigger] name[i] as u32 > 0x1f && !(0x7f <= name[i] as u32
                <= 0x9f),
    ensures
        crate::providers::fal_transfer::printable(name) == name,
    decreases name.len(),
{
    if name.len() > 0 {
        let rest = name.drop_last();
        assert forall|i: int| 0 <= i < rest.len() implies #[trigger] rest[i] as u32 > 0x1f && !(
        0x7f <= rest[i] as u32 <= 0x9f) by {
            assert(rest[i] == name[i]);
        }
        printable_is_kept(rest);
        assert(name[name.len() - 1] == name.last());
        assert(rest.push(name.last()) =~= name);
    }
}

/// An upload is used again only for the same content, and only while it is still there.
pub proof fn uploads_are_reused_for_the_same_content(
    receipt: StoredUploadReceipt,
    digest: Seq<char>,
    size_bytes: u64,
    now: Timestamp,
)
    ensures
        ({
            let again = crate::providers::fal_transfer::reusable(receipt, digest, size_bytes, now);
            &&& receipt.source_sha256@ != digest ==> !again
            &&& receipt.byte_length != size_bytes ==> !again
            &&& receipt.provider_id@ != "fal"@ ==> !again
            &&& now.seconds > receipt.expires_at.seconds ==> !again
            &&& now == receipt.expires_at ==> !again
            &&& receipt.source_sha256@ == digest && receipt.byte_length == size_bytes
                && receipt.provider_id@ == "fal"@ && now.seconds < receipt.expires_at.seconds
                ==> again
        }),
{
}

/// It is too late for a submission from its deadline on, and never without one.
pub proof fn deadlines_are_kept(deadline: Timestamp, now: Timestamp)
    ensures
        !crate::providers::fal_transfer::too_late(None, now),
        crate::providers::fal_transfer::too_late(Some(deadline), deadline),
        now.seconds < deadline.seconds ==> !crate::providers::fal_transfer::too_late(
            Some(deadline),
            now,
        ),
        now.seconds > deadline.seconds ==> crate::providers::fal_transfer::too_late(
            Some(deadline),
            now,
        ),
        now.seconds == deadline.seconds ==> (crate::providers::fal_transfer::too_late(
            Some(deadline),
            now,
        ) <==> now.nanos >= deadline.nanos),
{
}

/// What is sent to the store for files is sent again after trouble on the way or in the store, and
/// after nothing else; the failure tells the two apart.
pub proof fn uploads_fail_by_their_answer(sending: Sending, status: u16)
    ensures
        crate::providers::fal_transfer::transient(None),
        crate::providers::fal_transfer::transient(Some(status)) <==> 500 <= status < 600 || status
            == 429,
        crate::providers::fal_transfer::upload_failure(sending, None).0
            == ProviderErrorKind::Network,
        !(sending is Part) && !(500 <= status < 600) && status != 429
            ==> crate::providers::fal_transfer::upload_failure(sending, Some(status)).0
            == ProviderErrorKind::Response && crate::text::occurs(
            crate::providers::fal_transfer::upload_failure(sending, Some(status)).1,
            crate::text::numeral(status as nat),
        ),
        sending is Part || 500 <= status < 600 || status == 429
            ==> crate::providers::fal_transfer::upload_failure(sending, Some(status)).0
            == ProviderErrorKind::Network,
{
    let number = crate::text::numeral(status as nat);
    let a = "fal CDN rejected the upload with HTTP "@;
    let b = "fal CDN could not complete the upload (HTTP "@;
    assert((a + number).subrange(a.len() as int, (a.len() + number.len()) as int) =~= number);
    assert(crate::text::occurs_at(a + number, number, a.len() as int));
    assert((b + number + ")"@).subrange(b.len() as int, (b.len() + number.len()) as int) =~= number);
    assert(crate::text::occurs_at(b + number + ")"@, number, b.len() as int));
}

/// The list of parts that ends an upload names every part with its mark, in order.
pub proof fn completions_name_every_part(parts: Seq<UploadedPart>, i: int)
    requires
        0 <= i < parts.len(),
    ensures
        crate::json::field(
            crate::providers::fal_transfer::completion_document(parts),
            "parts"@,
        ) matches Some(JsonView::Array(list)) && list.len() == parts.len() && crate::json::field(
            list[i],
            "etag"@,
        ) == Some(JsonView::Text(parts[i].etag@)) && crate::json::field(list[i], "partNumber"@)
            == Some(JsonView::Number(crate::outside::natural_of(parts[i].number))),
{
    reveal_strlit("etag");
    reveal_strlit("partNumber");
    assert("etag"@.len() == 4 && "partNumber"@.len() == 10);
    let entry = crate::providers::fal_transfer::part_entry(parts[i]);
    crate::json::lookup_at(entry->Object_0, "etag"@, 0);
    crate::json::lookup_at(entry->Object_0, "partNumber"@, 1);
    let whole = crate::providers::fal_transfer::completion_document(parts);
    crate::json::lookup_at(whole->Object_0, "parts"@, 0);
}

/// A part has the number that the store gave it, under either of its names, and else its own.
pub proof fn parts_have_their_numbers(answer: JsonView, number: u64)
    ensures
        crate::json::unsigned_field(answer, "partNumber"@) matches Some(given)
            ==> crate::providers::fal_transfer::stored_number(answer, number) == given,
        crate::json::field(answer, "partNumber"@) is None ==> (crate::json::unsigned_field(
            answer,
            "part_number"@,
        ) matches Some(given) ==> crate::providers::fal_transfer::stored_number(answer, number)
            == given),
        crate::json::field(answer, "partNumber"@) is None && crate::json::field(
            answer,
            "part_number"@,
        ) is None ==> crate::providers::fal_transfer::stored_number(answer, number) == number,
{
}

/// The limits on transfers: a download follows five redirects and holds four gibibytes; a file above
/// ninety mebibytes is sent in parts of ten; an upload is kept for a day.
pub proof fn transfers_have_their_limits(size: u64)
    ensures
        crate::providers::fal_transfer::MAX_REDIRECTS == 5,
        crate::providers::fal_transfer::oversized(Some(size)) <==> size > 4 * 1024 * 1024 * 1024,
        !crate::providers::fal_transfer::oversized(None),
        crate::providers::fal_transfer::MULTIPART_THRESHOLD == 90 * 1024 * 1024,
        crate::providers::fal_transfer::MULTIPART_CHUNK_SIZE == 10 * 1024 * 1024,
        crate::providers::fal_transfer::INPUT_UPLOAD_RETENTION_SECONDS == 24 * 60 * 60,
        crate::providers::fal_transfer::MAX_UPLOAD_ANSWER_BYTES == 1024 * 1024,
        crate::providers::fal_http::MAX_JSON_BYTES == 8 * 1024 * 1024,
        crate::json::field(
            crate::providers::fal_transfer::lifecycle_document(),
            "expiration_duration_seconds"@,
        ) == Some(JsonView::Number(crate::outside::natural_of(86400))),
{
    crate::json::lookup_at(
        crate::providers::fal_transfer::lifecycle_document()->Object_0,
        "expiration_duration_seconds"@,
        0,
    );
}

/// A length that an answer announces is the number that its header writes, and unknown where it
/// writes none.
pub proof fn lengths_are_announced(header: Seq<char>)
    ensures
        crate::providers::fal_transfer::announced_size(None) is None,
        crate::text::parsed_unsigned(header, u64::MAX as nat) matches Some(n)
            ==> crate::providers::fal_transfer::announced_size(Some(header)) == Some(n as u64),
        crate::text::parsed_unsigned(header, u64::MAX as nat) is None
            ==> crate::providers::fal_transfer::announced_size(Some(header)) is None,
{
}

/// Whether a provider can be given an item, perhaps after it is staged.
pub open spec fn takes(
    media: DraftMedia,
    capabilities: MediaCapabilities,
    staging: bool,
) -> bool {
    match media.source {
        MediaSource::RemoteUrl { .. } => capabilities.remote_urls,
        MediaSource::LocalFile { .. } => capabilities.local_files || (staging
            && capabilities.remote_urls),
    }
}

proof fn complaints_from(
    media: Seq<DraftMedia>,
    from: nat,
    capabilities: MediaCapabilities,
    staging: bool,
    display_name: Seq<char>,
    url_problems: Seq<Option<String>>,
)
    ensures
        crate::providers::media_complaint(
            media,
            from,
            capabilities,
            staging,
            display_name,
            url_problems,
        ) is None <==> forall|i: int|
            from <= i < media.len() ==> takes(#[trigger] media[i], capabilities, staging)
                && url_problems[i] is None,
    decreases media.len() - from,
{
    if from < media.len() {
        complaints_from(media, from + 1, capabilities, staging, display_name, url_problems);
        assert(media[from as int] == media[from as int]);
    }
}

/// A draft is accepted if and only if it is meant for the provider, nothing is wrong with it, the
/// provider has nothing against it, and every item is one that the provider can be given and whose
/// URL is in order.
#[verifier::spinoff_prover]
pub proof fn sound_drafts_are_accepted(
    descriptor: ProviderDescriptor,
    capabilities: MediaCapabilities,
    draft: GenerationDraft,
    findings: DraftFindings,
    staging: bool,
)
    ensures
        crate::providers::draft_refusal(
            descriptor,
            capabilities,
            draft,
            findings,
            staging,
        ) is None <==> draft.provider_id@ == descriptor.id@ && findings.draft_problem is None
            && findings.constraint is None && findings.request_problem is None && forall|i: int|
            0 <= i < draft.media@.len() ==> takes(
                #[trigger] draft.media@[i],
                capabilities,
                staging,
            ) && findings.url_problems@[i] is None,
        draft.provider_id@ == descriptor.id@ && findings.draft_problem is Some ==> (
        crate::providers::draft_refusal(
            descriptor,
            capabilities,
            draft,
            findings,
            staging,
        ) matches Some(e) && e.kind == ProviderErrorKind::Validation && e.message
            == findings.draft_problem->0@ && e.provider_id == descriptor.id@),
{
    complaints_from(
        draft.media@,
        0,
        capabilities,
        staging,
        descriptor.display_name@,
        findings.url_problems@,
    );
    assert(crate::providers::media_complaint(
        draft.media@,
        0,
        capabilities,
        staging,
        descriptor.display_name@,
        findings.url_problems@,
    ) is None <==> forall|i: int|
        0 <= i < draft.media@.len() ==> takes(#[trigger] draft.media@[i], capabilities, staging)
            && findings.url_problems@[i] is None);
}

/// A remote item is checked by its own URL; a local one by a URL that ends like a file of its kind
/// and that no other item has.
pub proof fn items_are_checked_by_a_url(
    media: DraftMedia,
    index: nat,
    capabilities: MediaCapabilities,
    staging: bool,
    display_name: Seq<char>,
)
    ensures
        ({
            let checked = crate::providers::validation_url(
                media,
                index,
                capabilities,
                staging,
                display_name,
            );
            &&& checked is Ok <==> takes(media, capabilities, staging)
            &&& media.source matches MediaSource::RemoteUrl { url } ==> (checked is Ok ==> checked
                == Ok::<Seq<char>, Seq<char>>(url@))
            &&& media.source is LocalFile && checked is Ok ==> checked == Ok::<
                Seq<char>,
                Seq<char>,
            >(
                "https://validation.invalid/reference-"@ + crate::text::numeral(index + 1) + "."@
                    + (match media.role.spec_kind() {
                    MediaKind::Image => "png"@,
                    MediaKind::Video => "mp4"@,
                    MediaKind::Audio => "mp3"@,
                }),
            )
        }),
{
}

/// A sound needs a picture or a video beside it at OpenRouter, and at fal.ai for the models of one
/// family, in letters of either case.
pub proof fn sound_needs_a_picture(model_id: Seq<char>)
    ensures
        crate::providers::needs_visual("openrouter"@, model_id),
        "bytedance/seedance-2.0"@.is_prefix_of(crate::text::lower_text(model_id))
            ==> crate::providers::needs_visual("fal"@, model_id),
        crate::text::occurs(crate::text::lower_text(model_id), "/seedance-2.0/"@)
            ==> crate::providers::needs_visual("fal"@, model_id),
        !crate::text::occurs(crate::text::lower_text(model_id), "seedance"@)
            ==> !crate::providers::needs_visual("fal"@, model_id),
        forall|provider: Seq<char>|
            provider != "openrouter"@ && provider != "fal"@
                ==> !#[trigger] crate::providers::needs_visual(provider, model_id),
{
    reveal_strlit("openrouter");
    reveal_strlit("fal");
    assert("openrouter"@.len() == 10 && "fal"@.len() == 3);
    reveal_strlit("bytedance/seedance-2.0");
    reveal_strlit("/seedance-2.0/");
    reveal_strlit("seedance");
    let small = crate::text::lower_text(model_id);
    let lead = "bytedance/seedance-2.0"@;
    if lead.is_prefix_of(small) {
        assert(small.subrange(0, lead.len() as int) =~= lead);
        assert(small.subrange(10, 18) =~= small.subrange(0, lead.len() as int).subrange(10, 18));
        assert(lead.subrange(10, 18) =~= "seedance"@);
        assert(crate::text::occurs_at(small, "seedance"@, 10));
    }
    if crate::text::occurs(small, "/seedance-2.0/"@) {
        let i = choose|i: int| #[trigger] crate::text::occurs_at(small, "/seedance-2.0/"@, i);
        let part = "/seedance-2.0/"@;
        assert(small.subrange(i + 1, i + 9) =~= small.subrange(i, i + part.len()).subrange(1, 9));
        assert(part.subrange(1, 9) =~= "seedance"@);
        assert(crate::text::occurs_at(small, "seedance"@, i + 1));
    }
}

/// A request is worth sending again after trouble with the network, the rate, the service or the
/// download, and after no other failure.
pub proof fn some_failures_pass(kind: ProviderErrorKind)
    ensures
        crate::providers::kind_retryable(kind) <==> kind is Network || kind is RateLimit
            || kind is Unavailable || kind is Download,
{
}

/// How many references are of a kind.
pub open spec fn of_kind(references: Seq<InputReference>, kind: MediaKind) -> nat {
    references.filter(|r: InputReference| r.kind == kind).len()
}

proof fn kinds_are_counted(references: Seq<InputReference>, kind: MediaKind)
    ensures
        crate::providers::openrouter::count_kind(references, kind) == of_kind(references, kind),
    decreases references.len(),
{
    reveal(Seq::filter);
    if references.len() > 0 {
        kinds_are_counted(references.drop_last(), kind);
    }
}

/// OpenRouter takes a request if and only if it has frames or references but not both, at most nine
/// pictures, three videos and three sounds, twelve references in all, and no sound alone.
pub proof fn references_are_limited(model_id: Seq<char>, request: VideoRequest)
    ensures
        ({
            let images = of_kind(request.input_references@, MediaKind::Image);
            let videos = of_kind(request.input_references@, MediaKind::Video);
            let audio = of_kind(request.input_references@, MediaKind::Audio);
            crate::providers::openrouter::reference_complaint(model_id, request) is None <==> !(
            request.frame_images@.len() > 0 && request.input_references@.len() > 0) && images <= 9
                && videos <= 3 && audio <= 3 && images + videos + audio <= 12 && !(audio > 0
                && images + videos == 0)
        }),
{
    kinds_are_counted(request.input_references@, MediaKind::Image);
    kinds_are_counted(request.input_references@, MediaKind::Video);
    kinds_are_counted(request.input_references@, MediaKind::Audio);
    sound_needs_a_picture(model_id);
}

/// OpenRouter's provider refuses a request if and only if it is another provider's, is faulty in
/// itself, asks for what the model lacks, or has references that are not taken.
pub proof fn requests_are_refused_for_a_reason(
    request: VideoRequest,
    problem: Option<Seq<char>>,
    model_id: Seq<char>,
    unsupported: Seq<Seq<char>>,
)
    ensures
        crate::providers::openrouter::request_refusal(
            request,
            problem,
            model_id,
            unsupported,
        ) is None <==> request.provider_id@ == "openrouter"@ && problem is None && unsupported.len()
            == 0 && crate::providers::openrouter::reference_complaint(model_id, request) is None,
        request.provider_id@ == "openrouter"@ && problem is Some
            ==> crate::providers::openrouter::request_refusal(
            request,
            problem,
            model_id,
            unsupported,
        ) == problem,
{
}

/// The failures of OpenRouter's client keep their kind: what cannot be found is a fault of the
/// request, and a fault of the service means that it is not available.
pub proof fn failures_keep_their_kind(kind: ApiErrorKind)
    ensures
        ({
            let mapped = crate::providers::openrouter::provider_kind(kind);
            &&& kind is Authentication <==> mapped is Authentication
            &&& kind is InsufficientCredits <==> mapped is InsufficientCredits
            &&& kind is RequestValidation || kind is ResourceNotFound <==> mapped is Validation
            &&& kind is ContentPolicy <==> mapped is ContentPolicy
            &&& kind is RateLimit <==> mapped is RateLimit
            &&& kind is Provider <==> mapped is Unavailable
            &&& kind is Network <==> mapped is Network
            &&& kind is ResponseFormat <==> mapped is Response
            &&& kind is UnsafeUrl <==> mapped is UnsafeEndpoint
            &&& kind is Download <==> mapped is Download
            &&& kind is Configuration <==> mapped is Configuration
        }),
{
}

/// What a request costs is not fixed beforehand where it has frames, references or options.
pub proof fn inputs_make_the_cost_vary(request: VideoRequest)
    ensures
        request.frame_images@.len() > 0 ==> crate::providers::openrouter::variable_cost(request),
        request.input_references@.len() > 0 ==> crate::providers::openrouter::variable_cost(request),
        request.frame_images@.len() == 0 && request.input_references@.len() == 0
            && request.adapter_options is None ==> !crate::providers::openrouter::variable_cost(
            request,
        ),
{
}

/// A failure of fal.ai is of the kind and says what it was given; it has no status and no wait.
pub proof fn failures_say_what_they_are_given(kind: ProviderErrorKind, message: Seq<char>)
    ensures
        ({
            let e = crate::providers::fal::fal_failure(kind, message);
            &&& e.provider_id == "fal"@ && e.kind == kind && e.message == message
            &&& e.status_code is None && e.code is None && e.retry_after_seconds is None
        }),
        ({
            let e = crate::providers::openrouter::refusal(message);
            &&& e.provider_id == "openrouter"@ && e.kind == ProviderErrorKind::Validation
            &&& e.message == message
        }),
{
}

/// An uncertain refusal keeps what the answer said.
pub proof fn uncertain_refusals_keep_the_answer(error: crate::providers::ErrorView)
    ensures
        ({
            let e = crate::providers::fal_http::uncertain_refusal(error);
            &&& e.kind == ProviderErrorKind::SubmissionUncertain
            &&& e.status_code == error.status_code && e.code == error.code
            &&& e.retry_after_seconds == error.retry_after_seconds
            &&& e.provider_id == error.provider_id
        }),
{
}

/// An upload starts if and only if its answer names a public place and a place to send the file to,
/// and both are in order.
pub proof fn uploads_start_with_two_places(
    answer: JsonView,
    problem: Option<Seq<char>>,
    target: Option<crate::urls::UrlView>,
)
    ensures
        crate::providers::fal_transfer::initiation_complaint(answer, problem, target) is None <==> (
        crate::json::field(answer, "file_url"@) matches Some(JsonView::Text(_))) && (
        crate::json::field(answer, "upload_url"@) matches Some(JsonView::Text(_))) && problem is None
            && (target matches Some(url)
            && crate::providers::fal_endpoints::upload_complaint(url) is None),
        crate::json::field(answer, "file_url"@) is None ==> (
        crate::providers::fal_transfer::initiation_complaint(answer, problem, target) matches Some(e)
            && e.0 == ProviderErrorKind::Response),
{
}

/// A part's answer without content says nothing, and any other says what it holds.
pub proof fn empty_answers_say_nothing(bytes: Seq<u8>, document: Option<JsonView>)
    ensures
        bytes.len() == 0 ==> crate::providers::fal_transfer::part_answer(bytes, document) == Some(
            JsonView::Null,
        ),
        bytes.len() > 0 ==> crate::providers::fal_transfer::part_answer(bytes, document)
            == document,
{
}

/// A model is read with the texts, the numbers and the names that its document lists, in order.
pub proof fn listed_values_are_read(items: Seq<JsonView>, value: JsonView)
    ensures
        value matches JsonView::Text(text) ==> crate::providers::fal_models::texts_among(
            items.push(value),
        ) == crate::providers::fal_models::texts_among(items).push(text),
        !(value is Text) ==> crate::providers::fal_models::texts_among(items.push(value))
            == crate::providers::fal_models::texts_among(items),
        value matches JsonView::Number(n) ==> (n.unsigned matches Some(given) ==> (given <= u32::MAX
            ==> crate::providers::fal_models::numbers_among(items.push(value))
            == crate::providers::fal_models::numbers_among(items).push(given as u32))),
        !(value is Number) ==> crate::providers::fal_models::numbers_among(items.push(value))
            == crate::providers::fal_models::numbers_among(items),
        crate::providers::fal_models::texts_among(Seq::empty()).len() == 0,
        crate::providers::fal_models::numbers_among(Seq::empty()).len() == 0,
{
    assert(items.push(value).drop_last() =~= items);
}

/// A model's fields are read with the controls that they carry, in order.
pub proof fn carried_fields_are_read(
    members: Seq<(Seq<char>, JsonView)>,
    control: Seq<char>,
    field: Seq<char>,
)
    ensures
        crate::providers::fal_models::pairs_among(members.push((control, JsonView::Text(field))))
            == crate::providers::fal_models::pairs_among(members).push((control, field)),
        crate::providers::fal_models::pairs_among(Seq::empty()).len() == 0,
{
    assert(members.push((control, JsonView::Text(field))).drop_last() =~= members);
}

/// A body is taken whole as long as it stays within its limit, in the order in which it came.
pub proof fn bodies_stay_within_their_limit(read: Seq<u8>, chunk: Seq<u8>, limit: nat)
    ensures
        crate::providers::fal_http::body_after(read, chunk, limit) is Some <==> read.len()
            + chunk.len() <= limit,
        crate::providers::fal_http::body_after(read, chunk, limit) matches Some(body) ==> body.take(
            read.len() as int,
        ) == read && body.skip(read.len() as int) == chunk,
{
    assert((read + chunk).take(read.len() as int) =~= read);
    assert((read + chunk).skip(read.len() as int) =~= chunk);
}

} // verus!
