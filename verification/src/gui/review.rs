//! What the review of a draft and the window's other dialogs say.

use crate::domain::{CostQuote, ProviderId, Timestamp, VideoRequest};
use crate::gui::media_list::{
    ellipsize_text, provider_name, typed_reference_counts, typed_reference_details,
};
use crate::outside::{render_pretty, write_moment, CLOCK_PATTERN, MINUTE_PATTERN};
use crate::text::{concat, concat3, decimal, list_texts, signed_decimal};
use vstd::prelude::*;

verus! {

/// A line of a review: what it is about, and what it says.
#[derive(Debug)]
pub struct SummaryRow {
    pub label: String,
    pub value: String,
}

/// The texts of a list of lines.
pub open spec fn summary_view(rows: Seq<SummaryRow>) -> Seq<(Seq<char>, Seq<char>)> {
    Seq::new(rows.len(), |i: int| (rows[i].label@, rows[i].value@))
}

/// A text, or the word for what the provider decides.
pub open spec fn or_default(text: Option<Seq<char>>) -> Seq<char> {
    match text {
        Some(text) => text,
        None => "provider default"@,
    }
}

/// The duration of a request.
pub open spec fn duration_says(duration: Option<u32>) -> Seq<char> {
    match duration {
        Some(seconds) => crate::text::numeral(seconds as nat) + " seconds"@,
        None => "provider default"@,
    }
}

/// The sound of a request.
pub open spec fn audio_says(generate_audio: Option<bool>) -> Seq<char> {
    match generate_audio {
        Some(true) => "on"@,
        Some(false) => "off"@,
        None => "provider default"@,
    }
}

/// The seed of a request.
pub open spec fn seed_says(seed: Option<i64>) -> Seq<char> {
    match seed {
        Some(seed) => crate::text::signed_numeral(seed as int),
        None => "provider default"@,
    }
}

/// The settings of a request, line by line.
pub open spec fn settings_say(request: VideoRequest) -> Seq<char> {
    let duration = "Duration: "@ + duration_says(request.duration);
    let resolution = "\nResolution: "@ + or_default(crate::domain::opt_view(request.resolution));
    let aspect = "\nAspect ratio: "@ + or_default(crate::domain::opt_view(request.aspect_ratio));
    let size = "\nExact size: "@ + or_default(crate::domain::opt_view(request.size));
    let audio = "\nAudio: "@ + audio_says(request.generate_audio);
    let seed = "\nSeed: "@ + seed_says(request.seed);
    duration + resolution + aspect + (size + audio + seed)
}

fn text_or_default(text: &Option<String>) -> (s: String)
    ensures
        s@ == or_default(crate::domain::opt_view(*text)),
{
    match text {
        Some(text) => text.clone(),
        None => "provider default".to_owned(),
    }
}

fn first_settings(request: &VideoRequest) -> (s: String)
    ensures
        s@ == "Duration: "@ + duration_says(request.duration) + ("\nResolution: "@ + or_default(
            crate::domain::opt_view(request.resolution),
        )) + ("\nAspect ratio: "@ + or_default(crate::domain::opt_view(request.aspect_ratio))),
{
    let duration = match request.duration {
        Some(seconds) => {
            let numeral = decimal(seconds as u64);
            concat(numeral.as_str(), " seconds")
        },
        None => "provider default".to_owned(),
    };
    let duration = concat("Duration: ", duration.as_str());
    let resolution = text_or_default(&request.resolution);
    let resolution = concat("\nResolution: ", resolution.as_str());
    let aspect = text_or_default(&request.aspect_ratio);
    let aspect = concat("\nAspect ratio: ", aspect.as_str());
    concat3(duration.as_str(), resolution.as_str(), aspect.as_str())
}

fn last_settings(request: &VideoRequest) -> (s: String)
    ensures
        s@ == "\nExact size: "@ + or_default(crate::domain::opt_view(request.size)) + ("\nAudio: "@
            + audio_says(request.generate_audio)) + ("\nSeed: "@ + seed_says(request.seed)),
{
    let size = text_or_default(&request.size);
    let size = concat("\nExact size: ", size.as_str());
    let audio = match request.generate_audio {
        Some(on) => if on {
            "on"
        } else {
            "off"
        },
        None => "provider default",
    };
    let audio = concat("\nAudio: ", audio);
    let seed = match request.seed {
        Some(seed) => signed_decimal(seed),
        None => "provider default".to_owned(),
    };
    let seed = concat("\nSeed: ", seed.as_str());
    concat3(size.as_str(), audio.as_str(), seed.as_str())
}

/// The settings of a request, line by line.
pub fn settings_text(request: &VideoRequest) -> (s: String)
    ensures
        s@ == settings_say(*request),
{
    let first = first_settings(request);
    let last = last_settings(request);
    concat(first.as_str(), last.as_str())
}

/// The price of a quote: the amount and how far it is to be trusted, or why there is none.
pub open spec fn price_says(quote: CostQuote) -> Seq<char> {
    match quote.amount {
        Some(amount) => (if quote.exact {
            "Exact"@
        } else {
            "Estimated"@
        }) + " "@ + amount@ + (" "@ + quote.currency@),
        None => "Unavailable ("@ + quote.basis@ + ")"@,
    }
}

/// The price of a quote: the amount and how far it is to be trusted, or why there is none.
pub fn price_text(quote: &CostQuote) -> (s: String)
    ensures
        s@ == price_says(*quote),
{
    match &quote.amount {
        Some(amount) => {
            let head = concat3(
                if quote.exact {
                    "Exact"
                } else {
                    "Estimated"
                },
                " ",
                amount.as_str(),
            );
            let tail = concat(" ", quote.currency.as_str());
            concat(head.as_str(), tail.as_str())
        },
        None => concat3("Unavailable (", quote.basis.as_str(), ")"),
    }
}

/// The lines that tell a request's media.
pub open spec fn media_lines_say(request: VideoRequest) -> Seq<Seq<char>> {
    Seq::new(
        request.frame_images@.len() + request.input_references@.len(),
        |i: int|
            if i < request.frame_images@.len() {
                crate::gui::media_list::frame_line(request, i)
            } else {
                crate::gui::media_list::reference_line(request, i - request.frame_images@.len())
            },
    )
}

/// The lines of a review about the media, where there are any.
pub open spec fn media_rows_say(request: VideoRequest) -> Seq<(Seq<char>, Seq<char>)> {
    let lines = media_lines_say(request);
    if lines.len() == 0 {
        Seq::empty()
    } else {
        seq![
            ("Typed references"@, crate::text::listed(lines, "\n"@)),
            (
                "Media checks"@,
                "Counts, URL safety, and supported local file signatures were checked. Duration, dimensions, and remote-media contents are not locally verified; provider validation and final usage remain authoritative."@,
            ),
        ]
    }
}

/// The lines of a review.
pub open spec fn review_says(
    provider_id: Seq<char>,
    request: VideoRequest,
    quote: CostQuote,
) -> Seq<(Seq<char>, Seq<char>)> {
    let head = seq![
        ("Provider"@, crate::gui::media_list::provider_title(provider_id)),
        ("Model"@, request.model@),
        ("Prompt"@, crate::gui::media_list::ellipsized(request.prompt@, 180)),
        ("Reference media"@, crate::gui::media_list::counts_say(request)),
    ];
    let settings = seq![("Settings"@, settings_say(request))];
    let options = match request.adapter_options {
        Some(options) => seq![
            ("Provider options"@, crate::outside::pretty_rendering_of(options@)),
        ],
        None => Seq::empty(),
    };
    head + media_rows_say(request) + (settings + options + seq![
        ("Fresh price"@, price_says(quote)),
    ])
}

fn push_row(rows: &mut Vec<SummaryRow>, label: &str, value: String)
    ensures
        summary_view(final(rows)@) == summary_view(old(rows)@).push((label@, value@)),
{
    rows.push(SummaryRow { label: label.to_owned(), value });
    assert(summary_view(rows@) =~= summary_view(old(rows)@).push((label@, value@)));
}

fn push_media(rows: &mut Vec<SummaryRow>, request: &VideoRequest)
    requires
        request.frame_images@.len() + request.input_references@.len() <= usize::MAX,
    ensures
        summary_view(final(rows)@) == summary_view(old(rows)@) + media_rows_say(*request),
{
    let details = typed_reference_details(request);
    assert(crate::text::texts(details@) =~= media_lines_say(*request));
    if details.len() > 0 {
        let list = list_texts(&details, "\n");
        push_row(rows, "Typed references", list);
        push_row(
            rows,
            "Media checks",
            "Counts, URL safety, and supported local file signatures were checked. Duration, dimensions, and remote-media contents are not locally verified; provider validation and final usage remain authoritative.".to_owned(),
        );
    }
    assert(summary_view(rows@) =~= summary_view(old(rows)@) + media_rows_say(*request));
}

/// Writes the lines of a review.
pub fn review_rows(provider_id: &ProviderId, request: &VideoRequest, quote: &CostQuote) -> (rows:
    Vec<SummaryRow>)
    requires
        request.frame_images@.len() + request.input_references@.len() <= usize::MAX,
    ensures
        summary_view(rows@) == review_says(provider_id@, *request, *quote),
{
    let mut rows: Vec<SummaryRow> = Vec::new();
    assert(summary_view(rows@) =~= Seq::empty());
    push_row(&mut rows, "Provider", provider_name(provider_id).to_owned());
    push_row(&mut rows, "Model", request.model.clone());
    push_row(&mut rows, "Prompt", ellipsize_text(request.prompt.as_str(), 180));
    push_row(&mut rows, "Reference media", typed_reference_counts(request));
    push_media(&mut rows, request);
    push_row(&mut rows, "Settings", settings_text(request));
    if let Some(options) = &request.adapter_options {
        push_row(&mut rows, "Provider options", render_pretty(options));
    }
    push_row(&mut rows, "Fresh price", price_text(quote));
    assert(summary_view(rows@) =~= review_says(provider_id@, *request, *quote));
    rows
}

/// The text for when a review expires.
pub fn review_expiry(expires_at: Timestamp) -> (s: Option<String>)
    ensures
        crate::domain::opt_view(s) == match crate::outside::moment_text_of(
            expires_at,
            CLOCK_PATTERN@,
        ) {
            Some(text) => Some(
                "This review expires at "@ + text + " or immediately after any edit."@,
            ),
            None => None,
        },
{
    match write_moment(expires_at, CLOCK_PATTERN) {
        Some(text) => Some(
            concat3(
                "This review expires at ",
                text.as_str(),
                " or immediately after any edit.",
            ),
        ),
        None => None,
    }
}

/// The text of the warning that a paid request may have been accepted.
pub fn uncertain_warning(provider_id: &ProviderId) -> (s: String)
    ensures
        s@ == crate::gui::media_list::provider_title(provider_id@)
            + " may have accepted the paid request, but no remote job ID came back. Check the provider dashboard before retrying. Editing the draft will create a distinct request."@,
{
    concat(
        provider_name(provider_id),
        " may have accepted the paid request, but no remote job ID came back. Check the provider dashboard before retrying. Editing the draft will create a distinct request.",
    )
}

/// The text of the question whether a hold is to be cleared.
pub fn hold_question(provider_id: &ProviderId) -> (s: String)
    ensures
        s@ == crate::gui::media_list::provider_title(provider_id@)
            + " may already be generating and charging for this exact draft. Open its dashboard and look for the job first. Only clear this hold after you have confirmed there is no matching generation."@,
{
    concat(
        provider_name(provider_id),
        " may already be generating and charging for this exact draft. Open its dashboard and look for the job first. Only clear this hold after you have confirmed there is no matching generation.",
    )
}

/// The text for when a hold was recorded.
pub fn hold_recorded(recorded_at: Timestamp) -> (s: Option<String>)
    ensures
        crate::domain::opt_view(s) == match crate::outside::moment_text_of(
            recorded_at,
            MINUTE_PATTERN@,
        ) {
            Some(text) => Some("Safety hold recorded "@ + text),
            None => None,
        },
{
    match write_moment(recorded_at, MINUTE_PATTERN) {
        Some(text) => Some(concat("Safety hold recorded ", text.as_str())),
        None => None,
    }
}

/// The text of the warning that the draft could not be saved before closing.
pub fn unsaved_warning(message: &str) -> (s: String)
    ensures
        s@ == message@
            + "\n\nKeep Video Harness open to fix or retry this, or close without saving the latest edits."@,
{
    concat(
        message,
        "\n\nKeep Video Harness open to fix or retry this, or close without saving the latest edits.",
    )
}

} // verus!
