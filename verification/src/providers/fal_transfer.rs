//! Moving files to and from fal.ai: downloads of finished videos and uploads of input media.

use crate::domain::{ProviderDescriptor, ProviderId, Timestamp, FAL_PROVIDER_ID};
use crate::gui_state::StoredUploadReceipt;
use crate::json::{Json, JsonView, Member};
use crate::outside::{is_header_text, natural, find_document, read_url, render};
use crate::paths::{file_name, lower_extension};
use crate::providers::fal::{failure, response_error, validation};
use crate::providers::fal_endpoints::{
    configuration, follow_redirect, unsafe_endpoint, validate_upload_url,
};
use crate::providers::fal_http::{submission_uncertain, Body};
use crate::providers::fal_jobs::fal_submitted_job;
use crate::providers::{MediaCapabilities, ProviderAccount, ProviderError, ProviderErrorKind};
use crate::text::{chars_of, concat, concat3, decimal, parse_unsigned, same_text};
use crate::urls::UrlParts;
use vstd::prelude::*;

verus! {

/// How long fal.ai keeps uploaded input media.
pub const INPUT_UPLOAD_RETENTION_SECONDS: u64 = 86400;

/// How many redirects a download follows.
pub const MAX_REDIRECTS: usize = 5;

/// The most bytes that a downloaded video may have: four gibibytes.
pub const MAX_DOWNLOAD_BYTES: u64 = 4_294_967_296;

/// The complaint about a video that has more.
pub const OVERSIZE_COMPLAINT: &'static str = "Video download exceeds the 4 GiB limit";

/// The size beyond which a file is uploaded in parts.
pub const MULTIPART_THRESHOLD: u64 = 94_371_840;

/// The size of such a part.
pub const MULTIPART_CHUNK_SIZE: usize = 10_485_760;

/// The most bytes of an upload's answer that are read.
pub const MAX_UPLOAD_ANSWER_BYTES: usize = 1_048_576;

/// A download that did not succeed.
pub(crate) fn download_error(message: &str) -> (e: ProviderError)
    ensures
        e@ == crate::providers::fal::fal_failure(ProviderErrorKind::Download, message@),
{
    failure(ProviderErrorKind::Download, message.to_owned())
}

/// Checks that a download may start. `artifact_problem` says what is wrong with the video's URL;
/// `taken` says whether there is a file at the destination or beside it already.
pub fn start_download(artifact_problem: Option<String>, taken: bool, destination: &str) -> (r:
    Result<(), ProviderError>)
    ensures
        match r {
            Ok(_) => artifact_problem is None && !taken,
            Err(e) => match artifact_problem {
                Some(problem) => e@ == crate::providers::fal::fal_failure(ProviderErrorKind::UnsafeEndpoint, problem@),
                None => taken && e@ == crate::providers::fal::fal_failure(
                    ProviderErrorKind::Download,
                    "Refusing to overwrite an existing download: "@ + destination@,
                ),
            },
        },
{
    if let Some(problem) = artifact_problem {
        return Err(unsafe_endpoint(problem.as_str()));
    }
    if taken {
        let message = concat("Refusing to overwrite an existing download: ", destination);
        return Err(download_error(message.as_str()));
    }
    Ok(())
}

/// What to do with the answer to a download request.
#[derive(Debug)]
pub enum DownloadStep {
    /// Ask this URL instead.
    Follow(String),
    /// Receive the video; its size, where the answer tells it.
    Receive(Option<u64>),
    Fail(ProviderError),
}

/// The size that an answer announces.
pub open spec fn announced_size(header: Option<Seq<char>>) -> Option<u64> {
    match header {
        Some(text) => match crate::text::parsed_unsigned(text, u64::MAX as nat) {
            Some(n) => Some(n as u64),
            None => None,
        },
        None => None,
    }
}

/// Whether an announced size is beyond what is downloaded.
pub open spec fn oversized(size: Option<u64>) -> bool {
    size matches Some(total) && total > MAX_DOWNLOAD_BYTES
}

/// Whether a status is a redirect.
pub open spec fn redirects(status: u16) -> bool {
    300 <= status < 400
}

/// Decides what to do with the answer to a download request. `redirect` is the number of redirects
/// that led to `url`; `location` and `length` are the headers of these names.
pub fn after_download_answer(
    redirect: usize,
    url: &str,
    status: u16,
    location: &Option<String>,
    length: &Option<String>,
) -> (step: DownloadStep)
    ensures
        match step {
            DownloadStep::Follow(target) => {
                &&& redirects(status)
                &&& redirect != MAX_REDIRECTS
                &&& *location matches Some(reference)
                    && crate::providers::fal_endpoints::redirect_target(
                    crate::providers::fal_endpoints::resolved(url@, reference@),
                ) == Ok::<Seq<char>, Seq<char>>(target@)
            },
            DownloadStep::Receive(size) => {
                &&& 200 <= status < 300
                &&& size == announced_size(crate::domain::opt_view(*length))
                &&& !oversized(size)
            },
            DownloadStep::Fail(e) => if redirects(status) {
                if redirect == MAX_REDIRECTS {
                    e@ == crate::providers::fal::fal_failure(
                        ProviderErrorKind::Download,
                        "Video download redirected too many times"@,
                    )
                } else {
                    match *location {
                        None => e@ == crate::providers::fal::fal_failure(
                            ProviderErrorKind::Download,
                            "Video redirect is missing Location"@,
                        ),
                        Some(reference) => crate::providers::fal_endpoints::redirect_target(
                            crate::providers::fal_endpoints::resolved(url@, reference@),
                        ) matches Err(message) && e@ == crate::providers::fal::fal_failure(
                            ProviderErrorKind::UnsafeEndpoint,
                            message,
                        ),
                    }
                }
            } else if 200 <= status < 300 {
                oversized(announced_size(crate::domain::opt_view(*length))) && e@
                    == crate::providers::fal::fal_failure(
                    ProviderErrorKind::Download,
                    OVERSIZE_COMPLAINT@,
                )
            } else {
                e@ == crate::providers::fal::fal_failure(
                    ProviderErrorKind::Download,
                    "Video download failed with HTTP "@ + crate::text::numeral(status as nat),
                )
            },
        },
{
    if 300 <= status && status < 400 {
        if redirect == MAX_REDIRECTS {
            return DownloadStep::Fail(download_error("Video download redirected too many times"));
        }
        return match location {
            None => DownloadStep::Fail(download_error("Video redirect is missing Location")),
            Some(reference) => match follow_redirect(url, reference.as_str()) {
                Ok(target) => DownloadStep::Follow(target),
                Err(e) => DownloadStep::Fail(e),
            },
        };
    }
    if !(200 <= status && status < 300) {
        let number = decimal(status as u64);
        let message = concat("Video download failed with HTTP ", number.as_str());
        return DownloadStep::Fail(download_error(message.as_str()));
    }
    let size = match length {
        Some(text) => parse_unsigned(text.as_str(), u64::MAX),
        None => None,
    };
    if let Some(total) = size {
        if total > MAX_DOWNLOAD_BYTES {
            return DownloadStep::Fail(download_error(OVERSIZE_COMPLAINT));
        }
    }
    DownloadStep::Receive(size)
}

/// How much of a download has arrived.
#[derive(Debug, Clone, Copy, PartialEq, Eq, Structural)]
pub struct DownloadProgress {
    pub written: u64,
    pub total: Option<u64>,
}

/// The sum of two sizes, or the largest size.
pub open spec fn saturated(a: nat, b: nat) -> nat {
    if a + b > u64::MAX {
        u64::MAX as nat
    } else {
        a + b
    }
}

fn saturating(a: u64, b: u64) -> (sum: u64)
    ensures
        sum == saturated(a as nat, b as nat),
{
    if b > u64::MAX - a {
        u64::MAX
    } else {
        a + b
    }
}

impl DownloadProgress {
    /// Nothing has arrived yet.
    pub fn new(total: Option<u64>) -> (progress: DownloadProgress)
        ensures
            progress == (DownloadProgress { written: 0, total }),
    {
        DownloadProgress { written: 0, total }
    }

    /// A chunk has arrived. It is counted in any case, and refused where it goes beyond what is
    /// downloaded.
    pub fn add_chunk(&mut self, len: u64) -> (r: Result<(), ProviderError>)
        ensures
            final(self).written == saturated(old(self).written as nat, len as nat),
            final(self).total == old(self).total,
            match r {
                Ok(_) => final(self).written <= MAX_DOWNLOAD_BYTES,
                Err(e) => final(self).written > MAX_DOWNLOAD_BYTES && e@
                    == crate::providers::fal::fal_failure(
                    ProviderErrorKind::Download,
                    OVERSIZE_COMPLAINT@,
                ),
            },
    {
        self.written = saturating(self.written, len);
        if self.written > MAX_DOWNLOAD_BYTES {
            Err(download_error(OVERSIZE_COMPLAINT))
        } else {
            Ok(())
        }
    }

    /// Checks that the whole video has arrived, and no more than is downloaded.
    pub fn finish(&self) -> (r: Result<(), ProviderError>)
        ensures
            r is Ok <==> 0 < self.written <= MAX_DOWNLOAD_BYTES && (self.total matches Some(total)
                ==> self.written == total),
            r matches Err(e) ==> e@ == crate::providers::fal::fal_failure(
                ProviderErrorKind::Download,
                if self.written == 0 {
                    "fal returned an empty video file"@
                } else if self.written > MAX_DOWNLOAD_BYTES {
                    OVERSIZE_COMPLAINT@
                } else {
                    "Video download size mismatch: expected "@ + crate::text::numeral(
                        self.total->0 as nat,
                    ) + " bytes, received "@ + crate::text::numeral(self.written as nat)
                },
            ),
    {
        if self.written == 0 {
            return Err(download_error("fal returned an empty video file"));
        }
        if self.written > MAX_DOWNLOAD_BYTES {
            return Err(download_error(OVERSIZE_COMPLAINT));
        }
        if let Some(total) = self.total {
            if self.written != total {
                let expected = decimal(total);
                let received = decimal(self.written);
                let head = concat3(
                    "Video download size mismatch: expected ",
                    expected.as_str(),
                    " bytes, received ",
                );
                let message = concat(head.as_str(), received.as_str());
                return Err(download_error(message.as_str()));
            }
        }
        Ok(())
    }
}

/// What became of putting the finished file in its place.
#[derive(Debug)]
pub enum Placed {
    Done,
    /// There is a file in that place.
    Occupied,
    Failed(String),
}

/// The outcome of a download whose file was to be put in its place.
pub fn placed_download(placed: Placed, destination: &str) -> (r: Result<(), ProviderError>)
    ensures
        match placed {
            Placed::Done => r is Ok,
            Placed::Occupied => r matches Err(e) && e@ == crate::providers::fal::fal_failure(
                ProviderErrorKind::Download,
                "Refusing to overwrite an existing video: "@ + destination@,
            ),
            Placed::Failed(reason) => r matches Err(e) && e@ == crate::providers::fal::fal_failure(
                ProviderErrorKind::Download,
                "Could not finalize video: "@ + reason@,
            ),
        },
{
    match placed {
        Placed::Done => Ok(()),
        Placed::Occupied => {
            let message = concat("Refusing to overwrite an existing video: ", destination);
            Err(download_error(message.as_str()))
        },
        Placed::Failed(reason) => {
            let message = concat("Could not finalize video: ", reason.as_str());
            Err(download_error(message.as_str()))
        },
    }
}

/// What is sent to the store of uploads.
#[derive(Debug, Clone, Copy, PartialEq, Eq, Structural)]
pub enum Sending {
    /// A whole file.
    File,
    /// A part of a file.
    Part,
    /// The list of parts.
    Completion,
}

/// What became of sending it. `None` where no answer came.
pub type Sent = Option<u16>;

/// What to do after sending.
#[derive(Debug)]
pub enum UploadStep {
    Accepted,
    /// Wait for so many milliseconds, then send it again.
    Again(u64),
    Fail(ProviderError),
}

/// Whether sending again may help: no answer, an error of the server, or too many requests.
pub open spec fn transient(sent: Sent) -> bool {
    match sent {
        Some(status) => 500 <= status < 600 || status == 429,
        None => true,
    }
}

/// The failure of a sending that is not repeated.
pub open spec fn upload_failure(sending: Sending, sent: Sent) -> (ProviderErrorKind, Seq<char>) {
    match sending {
        Sending::Part => (
            ProviderErrorKind::Network,
            match sent {
                Some(status) => "fal CDN upload failed (HTTP "@ + crate::text::numeral(
                    status as nat,
                ) + ")"@,
                None => "fal CDN upload failed (network error)"@,
            },
        ),
        Sending::File => if transient(sent) {
            (ProviderErrorKind::Network, "fal CDN upload failed after safe retries"@)
        } else {
            (
                ProviderErrorKind::Response,
                "fal CDN rejected the upload with HTTP "@ + crate::text::numeral(sent->0 as nat),
            )
        },
        Sending::Completion => if transient(sent) {
            (
                ProviderErrorKind::Network,
                "Could not complete fal CDN multipart upload after safe retries"@,
            )
        } else {
            (
                ProviderErrorKind::Response,
                "fal CDN could not complete the upload (HTTP "@ + crate::text::numeral(
                    sent->0 as nat,
                ) + ")"@,
            )
        },
    }
}

/// Decides what to do after sending for the time with this number. Three times at most.
pub fn after_sending(sending: Sending, attempt: u32, sent: Sent) -> (step: UploadStep)
    ensures
        match step {
            UploadStep::Accepted => sent matches Some(status) && 200 <= status < 300,
            UploadStep::Again(millis) => transient(sent) && attempt < 2 && millis == 250 * (attempt
                + 1),
            UploadStep::Fail(e) => {
                &&& !(sent matches Some(status) && 200 <= status < 300)
                &&& !(transient(sent) && attempt < 2)
                &&& e@ == crate::providers::fal::fal_failure(upload_failure(sending, sent).0, upload_failure(sending, sent).1)
            },
        },
{
    let again = match sent {
        Some(status) => {
            if 200 <= status && status < 300 {
                return UploadStep::Accepted;
            }
            (500 <= status && status < 600) || status == 429
        },
        None => true,
    };
    if again && attempt < 2 {
        return UploadStep::Again(250 * (attempt as u64 + 1));
    }
    let code = match sent {
        Some(status) => decimal(status as u64),
        None => String::new(),
    };
    match sending {
        Sending::Part => {
            let message = match sent {
                Some(_) => concat3("fal CDN upload failed (HTTP ", code.as_str(), ")"),
                None => "fal CDN upload failed (network error)".to_owned(),
            };
            UploadStep::Fail(failure(ProviderErrorKind::Network, message))
        },
        Sending::File => if again {
            UploadStep::Fail(
                failure(
                    ProviderErrorKind::Network,
                    "fal CDN upload failed after safe retries".to_owned(),
                ),
            )
        } else {
            let message = concat("fal CDN rejected the upload with HTTP ", code.as_str());
            UploadStep::Fail(failure(ProviderErrorKind::Response, message))
        },
        Sending::Completion => if again {
            UploadStep::Fail(
                failure(
                    ProviderErrorKind::Network,
                    "Could not complete fal CDN multipart upload after safe retries".to_owned(),
                ),
            )
        } else {
            let message = concat3(
                "fal CDN could not complete the upload (HTTP ",
                code.as_str(),
                ")",
            );
            UploadStep::Fail(failure(ProviderErrorKind::Response, message))
        },
    }
}

/// The document in the answer to a part; `document` is what its bytes hold.
pub open spec fn part_answer(bytes: Seq<u8>, document: Option<JsonView>) -> Option<JsonView> {
    if bytes.len() == 0 {
        Some(JsonView::Null)
    } else {
        document
    }
}

/// Reads the answer to a part.
pub fn read_part_answer(bytes: &Vec<u8>) -> (r: Result<Json, ProviderError>)
    ensures
        match r {
            Ok(json) => part_answer(bytes@, crate::outside::document_in(bytes@)) == Some(
                json@,
            ),
            Err(e) => part_answer(bytes@, crate::outside::document_in(bytes@)) is None && e@
                == crate::providers::fal::fal_failure(
                ProviderErrorKind::Response,
                "fal CDN returned invalid upload JSON"@,
            ),
        },
{
    if bytes.len() == 0 {
        return Ok(Json::Null);
    }
    match find_document(bytes.as_slice()) {
        Some(json) => Ok(json),
        None => Err(response_error("fal CDN returned invalid upload JSON")),
    }
}

/// A part that the store has.
#[derive(Debug)]
pub struct UploadedPart {
    pub number: u64,
    pub etag: String,
}

/// The number that the store gives a part, or its own number.
pub open spec fn stored_number(answer: JsonView, number: u64) -> u64 {
    match crate::providers::fal_jobs::field_or(answer, "partNumber"@, "part_number"@) {
        Some(JsonView::Number(n)) => match n.unsigned {
            Some(given) => given,
            None => number,
        },
        _ => number,
    }
}

/// An upload in parts.
#[derive(Debug)]
pub struct MultipartUpload {
    /// The number of the next part.
    pub part_number: u64,
    pub sent: u64,
    pub parts: Vec<UploadedPart>,
}

impl MultipartUpload {
    /// Whether the parts are numbered from one on.
    pub open spec fn well_formed(self) -> bool {
        self.part_number == self.parts@.len() + 1
    }

    /// Nothing has been sent yet.
    pub fn new() -> (upload: MultipartUpload)
        ensures
            upload.well_formed(),
            upload.sent == 0,
            upload.parts@.len() == 0,
    {
        MultipartUpload { part_number: 1, sent: 0, parts: Vec::new() }
    }

    /// Records the answer to the next part, which has `len` bytes.
    pub fn accept_part(&mut self, answer: &Json, len: u64) -> (r: Result<(), ProviderError>)
        requires
            old(self).well_formed(),
            old(self).part_number < u64::MAX,
        ensures
            final(self).well_formed(),
            match crate::json::text_field(answer@, "etag"@) {
                Some(etag) if etag.len() > 0 => {
                    &&& r is Ok
                    &&& final(self).sent == saturated(old(self).sent as nat, len as nat)
                    &&& final(self).parts@.len() == old(self).parts@.len() + 1
                    &&& final(self).parts@.drop_last() == old(self).parts@
                    &&& final(self).parts@.last().number == stored_number(
                        answer@,
                        old(self).part_number,
                    )
                    &&& final(self).parts@.last().etag@ == etag
                },
                _ => {
                    &&& r matches Err(e)
                    &&& e@ == crate::providers::fal::fal_failure(
                        ProviderErrorKind::Response,
                        "fal CDN upload part is missing its ETag"@,
                    )
                    &&& *final(self) == *old(self)
                },
            },
    {
        let named = match answer.get("partNumber") {
            Some(value) => Some(value),
            None => answer.get("part_number"),
        };
        let number: u64 = match named {
            Some(value) => match value.as_u64() {
                Some(given) => given,
                None => self.part_number,
            },
            None => self.part_number,
        };
        let etag = match answer.get_str("etag") {
            Some(etag) => etag,
            None => {
                return Err(response_error("fal CDN upload part is missing its ETag"));
            },
        };
        if etag.is_empty() {
            return Err(response_error("fal CDN upload part is missing its ETag"));
        }
        let ghost before = self.parts@;
        self.parts.push(UploadedPart { number, etag: etag.to_owned() });
        self.sent = saturating(self.sent, len);
        self.part_number = self.part_number + 1;
        assert(self.parts@.drop_last() =~= before);
        Ok(())
    }
}

/// The entry for a part in the list of parts.
pub open spec fn part_entry(part: UploadedPart) -> JsonView {
    JsonView::Object(
        seq![
            ("etag"@, JsonView::Text(part.etag@)),
            ("partNumber"@, JsonView::Number(crate::outside::natural_of(part.number))),
        ],
    )
}

/// The list of parts that completes an upload.
pub open spec fn completion_document(parts: Seq<UploadedPart>) -> JsonView {
    JsonView::Object(
        seq![("parts"@, JsonView::Array(Seq::new(parts.len(), |i: int| part_entry(parts[i]))))],
    )
}

fn part_json(part: &UploadedPart) -> (entry: Json)
    ensures
        entry@ == part_entry(*part),
{
    broadcast use crate::json::object_view;

    let mut members: Vec<Member> = Vec::new();
    members.push(Member { key: "etag".to_owned(), value: Json::Text(part.etag.clone()) });
    members.push(
        Member { key: "partNumber".to_owned(), value: Json::Number(natural(part.number)) },
    );
    let entry = Json::Object(members);
    assert(entry@->Object_0 =~= part_entry(*part)->Object_0);
    entry
}

/// The list of parts that completes an upload.
pub fn completion(parts: &Vec<UploadedPart>) -> (json: Json)
    ensures
        json@ == completion_document(parts@),
{
    broadcast use crate::json::array_view, crate::json::object_view;

    let mut entries: Vec<Json> = Vec::new();
    let mut i: usize = 0;
    while i < parts.len()
        invariant
            i <= parts@.len(),
            entries@.len() == i,
            forall|j: int| 0 <= j < i ==> (#[trigger] entries@[j])@ == part_entry(parts@[j]),
        decreases parts@.len() - i,
    {
        let entry = part_json(&parts[i]);
        entries.push(entry);
        i = i + 1;
    }
    let list = Json::Array(entries);
    assert(list@->Array_0 =~= Seq::new(parts@.len(), |i: int| part_entry(parts@[i])));
    let mut members: Vec<Member> = Vec::new();
    members.push(Member { key: "parts".to_owned(), value: list });
    let json = Json::Object(members);
    assert(json@->Object_0 =~= completion_document(parts@)->Object_0);
    json
}

/// What a file of this name contains.
pub open spec fn content_type_of(path: Seq<char>) -> Seq<char> {
    match crate::paths::extension_of(path) {
        Some(extension) => {
            let e = crate::text::lower_text(extension);
            if e == "png"@ {
                "image/png"@
            } else if e == "jpg"@ || e == "jpeg"@ {
                "image/jpeg"@
            } else if e == "webp"@ {
                "image/webp"@
            } else if e == "gif"@ {
                "image/gif"@
            } else if e == "avif"@ {
                "image/avif"@
            } else if e == "bmp"@ {
                "image/bmp"@
            } else if e == "tif"@ || e == "tiff"@ {
                "image/tiff"@
            } else if e == "mp4"@ || e == "m4v"@ {
                "video/mp4"@
            } else if e == "webm"@ {
                "video/webm"@
            } else if e == "mov"@ {
                "video/quicktime"@
            } else if e == "mkv"@ {
                "video/x-matroska"@
            } else {
                "application/octet-stream"@
            }
        },
        None => "application/octet-stream"@,
    }
}

/// What a file of this name contains.
pub fn media_content_type(path: &str) -> (kind: &'static str)
    ensures
        kind@ == content_type_of(path@),
{
    let extension = match lower_extension(path) {
        Some(extension) => extension,
        None => {
            return "application/octet-stream";
        },
    };
    let e = extension.as_str();
    if same_text(e, "png") {
        "image/png"
    } else if same_text(e, "jpg") || same_text(e, "jpeg") {
        "image/jpeg"
    } else if same_text(e, "webp") {
        "image/webp"
    } else if same_text(e, "gif") {
        "image/gif"
    } else if same_text(e, "avif") {
        "image/avif"
    } else if same_text(e, "bmp") {
        "image/bmp"
    } else if same_text(e, "tif") || same_text(e, "tiff") {
        "image/tiff"
    } else if same_text(e, "mp4") || same_text(e, "m4v") {
        "video/mp4"
    } else if same_text(e, "webm") {
        "video/webm"
    } else if same_text(e, "mov") {
        "video/quicktime"
    } else if same_text(e, "mkv") {
        "video/x-matroska"
    } else {
        "application/octet-stream"
    }
}

/// Whether a character is a control character.
pub open spec fn control(c: char) -> bool {
    c as u32 <= 0x1f || 0x7f <= c as u32 <= 0x9f
}

/// A text without its control characters.
pub open spec fn printable(s: Seq<char>) -> Seq<char>
    decreases s.len(),
{
    if s.len() == 0 {
        s
    } else if control(s.last()) {
        printable(s.drop_last())
    } else {
        printable(s.drop_last()).push(s.last())
    }
}

/// The name under which a file is uploaded.
pub open spec fn upload_name_of(path: Seq<char>) -> Seq<char> {
    let name = match crate::paths::name_of(path) {
        Some(name) => printable(name),
        None => "reference.bin"@,
    };
    if name.len() == 0 {
        "reference.bin"@
    } else {
        name
    }
}

/// The name under which a file is uploaded: its own without control characters, if anything is
/// left of it.
pub fn upload_name(path: &str) -> (r: String)
    ensures
        r@ == upload_name_of(path@),
{
    let name = match file_name(path) {
        Some(name) => name,
        None => {
            proof {
                reveal_strlit("reference.bin");
            }
            return "reference.bin".to_owned();
        },
    };
    let chars = chars_of(name.as_str());
    let mut kept = String::new();
    let mut i: usize = 0;
    assert(name@.take(0) =~= Seq::<char>::empty());
    while i < chars.len()
        invariant
            i <= chars@.len(),
            chars@ == name@,
            kept@ == printable(name@.take(i as int)),
        decreases chars@.len() - i,
    {
        assert(name@.take(i + 1).drop_last() =~= name@.take(i as int));
        let c: char = chars[i];
        let code: u32 = c as u32;
        if !(code <= 0x1f || (0x7f <= code && code <= 0x9f)) {
            kept.push(c);
        }
        i = i + 1;
    }
    assert(name@.take(name@.len() as int) =~= name@);
    if kept.as_str().is_empty() {
        return "reference.bin".to_owned();
    }
    kept
}

/// How a local file is uploaded.
#[derive(Debug)]
pub struct UploadPlan {
    pub multipart: bool,
    pub content_type: String,
    /// What is asked of fal.ai.
    pub body: Json,
    /// The header that says how long the file is kept.
    pub lifecycle: String,
}

/// The document that says how long an upload is kept.
pub open spec fn lifecycle_document() -> JsonView {
    JsonView::Object(
        seq![
            (
                "expiration_duration_seconds"@,
                JsonView::Number(crate::outside::natural_of(INPUT_UPLOAD_RETENTION_SECONDS)),
            ),
        ],
    )
}

/// What is done with a local file before it is used.
#[derive(Debug)]
pub enum Staging {
    /// The upload that there is will do.
    Reuse(StoredUploadReceipt),
    Upload(UploadPlan),
}

/// Whether an earlier upload is one of this content to fal.ai and is still there.
pub open spec fn reusable(
    receipt: StoredUploadReceipt,
    digest: Seq<char>,
    size_bytes: u64,
    now: Timestamp,
) -> bool {
    &&& receipt.provider_id@ == FAL_PROVIDER_ID@
    &&& receipt.source_sha256@ == digest
    &&& now.before(receipt.expires_at)
    &&& receipt.byte_length == size_bytes
}

/// The receipt of an earlier upload, where it may be used again: its provider, its digest, its size
/// and its expiry are those of an upload of this content that is still there.
pub fn reusable_receipt(
    receipt: Option<StoredUploadReceipt>,
    digest: &str,
    size_bytes: u64,
    now: Timestamp,
) -> (r: Option<StoredUploadReceipt>)
    ensures
        r == match receipt {
            Some(kept) if reusable(kept, digest@, size_bytes, now) => Some(kept),
            _ => None,
        },
{
    match receipt {
        Some(kept) => if kept.provider_id.is(FAL_PROVIDER_ID) && same_text(
            kept.source_sha256.as_str(),
            digest,
        ) && kept.usable_at(now) && kept.byte_length == size_bytes {
            Some(kept)
        } else {
            None
        },
        None => None,
    }
}

/// Decides what is done with a local file, given the digest and the size of its content and the
/// receipt of an earlier upload.
pub fn plan_staging(
    path: &str,
    digest: &str,
    size_bytes: u64,
    receipt: Option<StoredUploadReceipt>,
    now: Timestamp,
) -> (r: Result<Staging, ProviderError>)
    ensures
        match r {
            Err(e) => size_bytes == 0 && e@ == crate::providers::fal::fal_failure(
                ProviderErrorKind::Validation,
                "Local media file is empty"@,
            ),
            Ok(Staging::Reuse(kept)) => size_bytes > 0 && receipt == Some(kept) && reusable(
                kept,
                digest@,
                size_bytes,
                now,
            ),
            Ok(Staging::Upload(plan)) => {
                &&& size_bytes > 0
                &&& receipt matches Some(kept) ==> !reusable(kept, digest@, size_bytes, now)
                &&& plan.multipart == (size_bytes > MULTIPART_THRESHOLD)
                &&& plan.content_type@ == content_type_of(path@)
                &&& plan.body@ == JsonView::Object(
                    seq![
                        ("content_type"@, JsonView::Text(content_type_of(path@))),
                        ("file_name"@, JsonView::Text(upload_name_of(path@))),
                    ],
                )
                &&& plan.lifecycle@ == crate::outside::rendering_of(lifecycle_document())
            },
        },
{
    broadcast use crate::json::object_view;

    if size_bytes == 0 {
        return Err(validation("Local media file is empty"));
    }
    if let Some(kept) = reusable_receipt(receipt, digest, size_bytes, now) {
        return Ok(Staging::Reuse(kept));
    }
    let content_type = media_content_type(path);
    let mut members: Vec<Member> = Vec::new();
    members.push(
        Member { key: "content_type".to_owned(), value: Json::Text(content_type.to_owned()) },
    );
    members.push(Member { key: "file_name".to_owned(), value: Json::Text(upload_name(path)) });
    let body = Json::Object(members);
    assert(body@->Object_0 =~= seq![
        ("content_type"@, JsonView::Text(content_type_of(path@))),
        ("file_name"@, JsonView::Text(upload_name_of(path@))),
    ]);
    let mut kept: Vec<Member> = Vec::new();
    kept.push(
        Member {
            key: "expiration_duration_seconds".to_owned(),
            value: Json::Number(natural(INPUT_UPLOAD_RETENTION_SECONDS)),
        },
    );
    let lifecycle = Json::Object(kept);
    assert(lifecycle@->Object_0 =~= lifecycle_document()->Object_0);
    Ok(
        Staging::Upload(
            UploadPlan {
                multipart: size_bytes > MULTIPART_THRESHOLD,
                content_type: content_type.to_owned(),
                body,
                lifecycle: render(&lifecycle),
            },
        ),
    )
}

/// Where an announced upload goes and where it will be found.
#[derive(Debug)]
pub struct InitiatedUpload {
    pub public_url: String,
    pub upload_url: UrlParts,
}

/// What is wrong with the answer to an announced upload. `target` is the URL in its `upload_url`.
pub open spec fn initiation_complaint(
    answer: JsonView,
    public_problem: Option<Seq<char>>,
    target: Option<crate::urls::UrlView>,
) -> Option<(ProviderErrorKind, Seq<char>)> {
    if crate::json::text_field(answer, "file_url"@) is None {
        Some((ProviderErrorKind::Response, "fal upload initiation is missing file_url"@))
    } else if public_problem is Some {
        Some((ProviderErrorKind::UnsafeEndpoint, public_problem->0))
    } else if crate::json::text_field(answer, "upload_url"@) is None {
        Some((ProviderErrorKind::Response, "fal upload initiation is missing upload_url"@))
    } else {
        match target {
            None => Some(
                (ProviderErrorKind::UnsafeEndpoint, "fal returned an invalid CDN upload URL"@),
            ),
            Some(url) => match crate::providers::fal_endpoints::upload_complaint(url) {
                Some(message) => Some((ProviderErrorKind::UnsafeEndpoint, message)),
                None => None,
            },
        }
    }
}

/// The URL that a text field holds.
pub open spec fn url_field(answer: JsonView, name: Seq<char>) -> Option<crate::urls::UrlView> {
    match crate::json::text_field(answer, name) {
        Some(text) => crate::outside::url_of(text),
        None => None,
    }
}

/// Reads the answer to an announced upload. `public_problem` says what is wrong with the URL at
/// which the file is to be found.
pub fn initiated_upload(answer: &Json, public_problem: Option<String>) -> (r: Result<
    InitiatedUpload,
    ProviderError,
>)
    ensures
        match r {
            Ok(upload) => {
                &&& initiation_complaint(
                    answer@,
                    crate::domain::opt_view(public_problem),
                    url_field(answer@, "upload_url"@),
                ) is None
                &&& crate::json::text_field(answer@, "file_url"@) == Some(upload.public_url@)
                &&& url_field(answer@, "upload_url"@) == Some(upload.upload_url@)
            },
            Err(e) => initiation_complaint(
                answer@,
                crate::domain::opt_view(public_problem),
                url_field(answer@, "upload_url"@),
            ) matches Some((kind, message)) && e@ == crate::providers::fal::fal_failure(kind, message),
        },
{
    let public_url = match answer.get_str("file_url") {
        Some(url) => url,
        None => {
            return Err(response_error("fal upload initiation is missing file_url"));
        },
    };
    if let Some(problem) = public_problem {
        return Err(unsafe_endpoint(problem.as_str()));
    }
    let target = match answer.get_str("upload_url") {
        Some(url) => url,
        None => {
            return Err(response_error("fal upload initiation is missing upload_url"));
        },
    };
    let upload_url = match read_url(target) {
        Some(url) => url,
        None => {
            return Err(unsafe_endpoint("fal returned an invalid CDN upload URL"));
        },
    };
    if let Err(e) = validate_upload_url(&upload_url) {
        return Err(e);
    }
    Ok(InitiatedUpload { public_url: public_url.to_owned(), upload_url })
}

/// When an upload expires: its retention counts from the moment at which it was announced.
pub fn upload_expiry(started: Timestamp) -> (expires: Timestamp)
    requires
        started.seconds <= i64::MAX - INPUT_UPLOAD_RETENTION_SECONDS,
    ensures
        expires.seconds == started.seconds + INPUT_UPLOAD_RETENTION_SECONDS,
        expires.nanos == started.nanos,
        started.before(expires),
{
    Timestamp { seconds: started.seconds + 86400, nanos: started.nanos }
}

/// How fal.ai takes media.
pub fn media_capabilities() -> (c: MediaCapabilities)
    ensures
        c == (MediaCapabilities {
            remote_urls: true,
            local_files: true,
            uploaded_files_public: true,
            upload_retention_seconds: Some(INPUT_UPLOAD_RETENTION_SECONDS),
        }),
{
    MediaCapabilities {
        remote_urls: true,
        local_files: true,
        uploaded_files_public: true,
        upload_retention_seconds: Some(INPUT_UPLOAD_RETENTION_SECONDS),
    }
}

/// Whether a submission comes too late for the media that it uses.
pub open spec fn too_late(submit_before: Option<Timestamp>, now: Timestamp) -> bool {
    submit_before matches Some(deadline) && !now.before(deadline)
}

/// Checks that the media of a submission is kept for long enough.
pub fn check_deadline(submit_before: Option<Timestamp>, now: Timestamp) -> (r: Result<
    (),
    ProviderError,
>)
    ensures
        r is Ok <==> !too_late(submit_before, now),
        r matches Err(e) ==> e@ == crate::providers::fal::fal_failure(
            ProviderErrorKind::Validation,
            "Staged input media is too close to expiring; Review again before generating"@,
        ),
{
    if let Some(deadline) = submit_before {
        if !now.is_before(deadline) {
            return Err(
                validation(
                    "Staged input media is too close to expiring; Review again before generating",
                ),
            );
        }
    }
    Ok(())
}

/// What the refusal of an accepted submission's answer says.
pub open spec fn unreadable_acceptance(problem: Seq<char>) -> Seq<char> {
    "fal returned an invalid accepted-job response: "@ + problem + ". The request may exist."@
}

/// The job that an accepted submission started; where the answer does not tell, it is uncertain
/// whether the job exists. `locator_problem` says what is wrong with the place at which the answer
/// puts the job.
pub fn accepted_submission(endpoint_id: &str, answer: &Json, locator_problem: Option<String>) -> (r:
    Result<crate::domain::VideoJob, ProviderError>)
    ensures
        match r {
            Ok(job) => {
                &&& crate::json::text_field(answer@, "request_id"@) == Some(job.id@)
                &&& job.id@.len() > 0
                &&& locator_problem is None
                &&& job.provider_id@ == FAL_PROVIDER_ID@
                &&& job.raw@ == answer@
                &&& job.usage@ == JsonView::Object(Seq::empty())
                &&& job.error is None && job.generation_id is None
                &&& job.polling_url@ == crate::providers::fal_jobs::written_locator(job.locator@)
                &&& job.artifacts@.len() == 0 && job.unsigned_urls@.len() == 0
                &&& job.status@ == crate::domain::StatusView::Pending
                &&& job.locator@ == crate::providers::fal_jobs::answered_locator(
                    endpoint_id@,
                    job.id@,
                    answer@,
                )
            },
            Err(e) => {
                &&& e.kind == ProviderErrorKind::SubmissionUncertain
                &&& match crate::json::text_field(answer@, "request_id"@) {
                    Some(id) if id.len() > 0 => locator_problem matches Some(problem) && e@
                        == crate::providers::fal::fal_failure(
                        ProviderErrorKind::SubmissionUncertain,
                        unreadable_acceptance(problem@),
                    ),
                    _ => e@ == crate::providers::fal::fal_failure(
                        ProviderErrorKind::SubmissionUncertain,
                        unreadable_acceptance("fal submission is missing request_id"@),
                    ),
                }
            },
        },
{
    match fal_submitted_job(endpoint_id, answer, locator_problem) {
        Ok(job) => Ok(job),
        Err(error) => {
            let message = concat3(
                "fal returned an invalid accepted-job response: ",
                error.message.as_str(),
                ". The request may exist.",
            );
            Err(submission_uncertain(message.as_str()))
        },
    }
}

/// A header of a request.
pub struct Header {
    pub name: String,
    pub value: String,
    /// Whether the value is kept out of logs.
    pub sensitive: bool,
}

/// The values of headers.
pub open spec fn headers_view(list: Seq<Header>) -> Seq<(Seq<char>, Seq<char>, bool)> {
    Seq::new(list.len(), |i: int| (list[i].name@, list[i].value@, list[i].sensitive))
}

/// The headers of a request beside those that it brings itself.
pub open spec fn common_headers(authenticated: bool, has_body: bool, title: Seq<char>, key: Seq<char>)
    -> Seq<(Seq<char>, Seq<char>, bool)> {
    let always = seq![
        ("accept"@, "application/json"@, false),
        ("user-agent"@, "video-harness/0.3 "@ + title, false),
    ];
    let signed = if authenticated {
        always.push(("authorization"@, "Key "@ + key, true))
    } else {
        always
    };
    if has_body {
        signed.push(("content-type"@, "application/json"@, false))
    } else {
        signed
    }
}

/// The headers of a request beside those that it brings itself. The API key goes along only where
/// the request is authenticated.
pub fn request_headers(authenticated: bool, has_body: bool, title: &str, key: &str) -> (r: Result<
    Vec<Header>,
    ProviderError,
>)
    ensures
        match r {
            Ok(list) => {
                &&& headers_view(list@) == common_headers(authenticated, has_body, title@, key@)
                &&& crate::outside::header_text("video-harness/0.3 "@ + title@)
                &&& authenticated ==> crate::outside::header_text("Key "@ + key@)
            },
            Err(e) => if !crate::outside::header_text("video-harness/0.3 "@ + title@) {
                e@ == crate::providers::fal::fal_failure(ProviderErrorKind::Configuration, "Invalid application title"@)
            } else {
                authenticated && !crate::outside::header_text("Key "@ + key@) && e@ == crate::providers::fal::fal_failure(
                    ProviderErrorKind::Configuration,
                    "Invalid fal API key"@,
                )
            },
        },
{
    let agent = concat("video-harness/0.3 ", title);
    if !is_header_text(agent.as_str()) {
        return Err(configuration("Invalid application title"));
    }
    let mut list: Vec<Header> = Vec::new();
    list.push(
        Header {
            name: "accept".to_owned(),
            value: "application/json".to_owned(),
            sensitive: false,
        },
    );
    list.push(Header { name: "user-agent".to_owned(), value: agent, sensitive: false });
    if authenticated {
        let value = concat("Key ", key);
        if !is_header_text(value.as_str()) {
            return Err(configuration("Invalid fal API key"));
        }
        list.push(Header { name: "authorization".to_owned(), value, sensitive: true });
    }
    if has_body {
        list.push(
            Header {
                name: "content-type".to_owned(),
                value: "application/json".to_owned(),
                sensitive: false,
            },
        );
    }
    assert(headers_view(list@) =~= common_headers(authenticated, has_body, title@, key@));
    Ok(list)
}

/// The headers of a download request.
pub open spec fn spec_download_headers() -> Seq<(Seq<char>, Seq<char>, bool)> {
    seq![
        ("accept"@, "video/*,application/octet-stream"@, false),
        ("user-agent"@, "video-harness/0.3 Video Harness"@, false),
    ]
}

/// The headers of a download request. A download goes to wherever the video is, so it carries
/// nothing of the account.
pub fn download_headers() -> (list: Vec<Header>)
    ensures
        headers_view(list@) == spec_download_headers(),
{
    let mut list: Vec<Header> = Vec::new();
    list.push(
        Header {
            name: "accept".to_owned(),
            value: "video/*,application/octet-stream".to_owned(),
            sensitive: false,
        },
    );
    list.push(
        Header {
            name: "user-agent".to_owned(),
            value: "video-harness/0.3 Video Harness".to_owned(),
            sensitive: false,
        },
    );
    assert(headers_view(list@) =~= spec_download_headers());
    list
}

/// A download request carries no authorization, and nothing that is kept out of logs.
pub proof fn downloads_are_anonymous()
    ensures
        forall|i: int|
            0 <= i < spec_download_headers().len() ==> (#[trigger] spec_download_headers()[i]).0
                != "authorization"@ && !spec_download_headers()[i].2,
{
    reveal_strlit("authorization");
    reveal_strlit("accept");
    reveal_strlit("user-agent");
    assert("authorization"@.len() == 13 && "accept"@.len() == 6 && "user-agent"@.len() == 10);
}

/// The API key goes along with authenticated requests and no others.
pub proof fn key_goes_with_authenticated_requests_only(
    authenticated: bool,
    has_body: bool,
    title: Seq<char>,
    key: Seq<char>,
)
    ensures
        (exists|i: int|
            0 <= i < common_headers(authenticated, has_body, title, key).len()
                && (#[trigger] common_headers(authenticated, has_body, title, key)[i]).0
                == "authorization"@) == authenticated,
{
    let list = common_headers(authenticated, has_body, title, key);
    reveal_strlit("authorization");
    reveal_strlit("accept");
    reveal_strlit("user-agent");
    reveal_strlit("content-type");
    assert("authorization"@.len() == 13 && "accept"@.len() == 6 && "user-agent"@.len() == 10
        && "content-type"@.len() == 12);
    if authenticated {
        assert(list[2].0 == "authorization"@);
    }
}

/// What fal.ai is called.
pub fn descriptor() -> (d: ProviderDescriptor)
    ensures
        d.id@ == FAL_PROVIDER_ID@,
        d.display_name@ == "fal.ai"@,
        d.website@ == "https://fal.ai"@,
{
    ProviderDescriptor {
        id: ProviderId::fal(),
        display_name: "fal.ai".to_owned(),
        website: "https://fal.ai".to_owned(),
    }
}

/// The account behind a key that fal.ai accepts. fal.ai tells no balance.
pub fn account(raw: Json) -> (a: ProviderAccount)
    ensures
        a.label@ == "fal.ai API key"@,
        a.balance is None,
        a.raw == raw,
{
    ProviderAccount { label: "fal.ai API key".to_owned(), balance: None, raw }
}

/// The document in the answer to a part, by how its body could be read.
pub fn read_upload_body(body: Body) -> (r: Result<Json, ProviderError>)
    ensures
        match body {
            Body::Bytes(bytes) => match part_answer(
                bytes@,
                crate::outside::document_in(bytes@),
            ) {
                Some(document) => r matches Ok(json) && json@ == document,
                None => r matches Err(e) && e@ == crate::providers::fal::fal_failure(
                    ProviderErrorKind::Response,
                    "fal CDN returned invalid upload JSON"@,
                ),
            },
            Body::Interrupted => r matches Err(e) && e@ == crate::providers::fal::fal_failure(
                ProviderErrorKind::Network,
                "fal CDN interrupted an upload response"@,
            ),
            Body::TooLarge => r matches Err(e) && e@ == crate::providers::fal::fal_failure(
                ProviderErrorKind::Response,
                "fal CDN upload response exceeded the safe size limit"@,
            ),
        },
{
    match body {
        Body::Bytes(bytes) => read_part_answer(&bytes),
        Body::Interrupted => Err(
            failure(
                ProviderErrorKind::Network,
                "fal CDN interrupted an upload response".to_owned(),
            ),
        ),
        Body::TooLarge => Err(
            response_error("fal CDN upload response exceeded the safe size limit"),
        ),
    }
}

} // verus!
