//! What fal.ai charges.

use crate::domain::{CostQuote, PriceSku, QuoteConfidence};
use crate::json::{Json, JsonView};
use crate::outside::{multiply, read_decimal, render};
use crate::providers::fal::response_error;
use crate::providers::{ProviderError, ProviderErrorKind};
use crate::text::{ascii_lowercase, concat, concat3, decimal, replace_text, same_text};
use vstd::prelude::*;

verus! {

/// The position of the first entry of a list that names the model.
pub open spec fn price_entry(prices: Seq<JsonView>, model_id: Seq<char>) -> Option<JsonView>
    decreases prices.len(),
{
    if prices.len() == 0 {
        None
    } else if crate::json::text_field(prices[0], "endpoint_id"@) == Some(model_id) {
        Some(prices[0])
    } else {
        price_entry(prices.skip(1), model_id)
    }
}

/// The price of a model in an answer.
pub open spec fn listed_price(answer: JsonView, model_id: Seq<char>) -> Option<JsonView> {
    match crate::json::array_field(answer, "prices"@) {
        Some(prices) => price_entry(prices, model_id),
        None => None,
    }
}

fn find_price<'a>(answer: &'a Json, model_id: &str) -> (r: Option<&'a Json>)
    ensures
        match r {
            Some(price) => listed_price(answer@, model_id@) == Some(price@),
            None => listed_price(answer@, model_id@) is None,
        },
{
    let prices = match answer.get_array("prices") {
        Some(prices) => prices,
        None => {
            return None;
        },
    };
    let ghost view = crate::json::items_view(prices@);
    let mut i: usize = 0;
    assert(view.skip(0) =~= view);
    while i < prices.len()
        invariant
            i <= prices@.len(),
            view == crate::json::items_view(prices@),
            listed_price(answer@, model_id@) == price_entry(view.skip(i as int), model_id@),
        decreases prices@.len() - i,
    {
        assert(view.skip(i as int)[0] == prices@[i as int]@);
        if let Some(id) = prices[i].get_str("endpoint_id") {
            if same_text(id, model_id) {
                return Some(&prices[i]);
            }
        }
        assert(view.skip(i as int).skip(1) =~= view.skip(i + 1));
        i = i + 1;
    }
    None
}

/// What a price is for.
pub open spec fn billing_unit(price: JsonView) -> Seq<char> {
    match crate::json::text_field(price, "unit"@) {
        Some(unit) => unit,
        None => "unknown"@,
    }
}

/// The text of a price's amount.
pub open spec fn amount_text(price: JsonView) -> Option<Seq<char>> {
    match crate::json::field(price, "unit_price"@) {
        Some(value) => Some(crate::providers::fal_jobs::as_text(value)),
        None => None,
    }
}

/// The amount that a text denotes.
pub open spec fn amount_in(text: Option<Seq<char>>) -> Option<Seq<char>> {
    match text {
        Some(t) => crate::outside::decimal_of(t),
        None => None,
    }
}

/// A unit's name in small letters with underscores.
pub open spec fn plain_unit(unit: Seq<char>) -> Seq<char> {
    crate::text::replaced(
        crate::text::replaced(crate::text::lower_text(unit), " "@, "_"@),
        "-"@,
        "_"@,
    )
}

/// Whether a unit is a whole video.
pub open spec fn per_video(unit: Seq<char>) -> bool {
    plain_unit(unit) == "video"@ || plain_unit(unit) == "request"@ || plain_unit(unit)
        == "generation"@
}

/// Whether a unit is a second of video.
pub open spec fn per_second(unit: Seq<char>) -> bool {
    plain_unit(unit) == "video_second"@ || plain_unit(unit) == "second"@ || plain_unit(unit)
        == "output_second"@
}

/// The value of a quote.
pub struct QuoteView {
    pub amount: Option<Seq<char>>,
    pub basis: Seq<char>,
    pub confidence: QuoteConfidence,
}

/// What a price says of a generation. `product` is the price of so many seconds.
pub open spec fn priced(
    unit: Seq<char>,
    unit_price: Option<Seq<char>>,
    duration: Option<u32>,
    product: Option<Seq<char>>,
) -> QuoteView {
    if per_video(unit) {
        QuoteView {
            amount: unit_price,
            basis: "Advertised fal price per "@ + unit,
            confidence: if unit_price is Some {
                QuoteConfidence::Exact
            } else {
                QuoteConfidence::Unknown
            },
        }
    } else if per_second(unit) {
        match (unit_price, duration) {
            (Some(price), Some(seconds)) => QuoteView {
                amount: product,
                basis: "Estimated "@ + crate::text::numeral(seconds as nat) + "s × $"@ + price
                    + "/"@ + unit,
                confidence: QuoteConfidence::Estimated,
            },
            _ => QuoteView {
                amount: None,
                basis: "fal bills per "@ + unit + "; duration is required"@,
                confidence: QuoteConfidence::Unknown,
            },
        }
    } else {
        QuoteView {
            amount: None,
            basis: "fal uses unsupported billing unit "@ + unit,
            confidence: QuoteConfidence::Unknown,
        }
    }
}

/// The currency of a price.
pub open spec fn currency_of(price: JsonView) -> Seq<char> {
    match crate::json::text_field(price, "currency"@) {
        Some(name) if name.len() > 0 => name,
        _ => "USD"@,
    }
}

/// Whether a price is by the second and both the price and the duration are known.
pub open spec fn needs_product(
    unit: Seq<char>,
    unit_price: Option<Seq<char>>,
    duration: Option<u32>,
) -> bool {
    !per_video(unit) && per_second(unit) && unit_price is Some && duration is Some
}

fn normalize_unit(unit: &str) -> (plain: String)
    ensures
        plain@ == plain_unit(unit@),
{
    proof {
        reveal_strlit(" ");
        reveal_strlit("-");
    }
    let lower = ascii_lowercase(unit);
    let spaced = replace_text(lower.as_str(), " ", "_");
    replace_text(spaced.as_str(), "-", "_")
}

fn is_per_video(plain: &str) -> (b: bool)
    ensures
        b == (plain@ == "video"@ || plain@ == "request"@ || plain@ == "generation"@),
{
    same_text(plain, "video") || same_text(plain, "request") || same_text(plain, "generation")
}

fn is_per_second(plain: &str) -> (b: bool)
    ensures
        b == (plain@ == "video_second"@ || plain@ == "second"@ || plain@ == "output_second"@),
{
    same_text(plain, "video_second") || same_text(plain, "second") || same_text(
        plain,
        "output_second",
    )
}

/// Whether `quote` is what the price says of a generation.
pub open spec fn quotes(
    quote: CostQuote,
    price: JsonView,
    unit_price: Option<Seq<char>>,
    duration: Option<u32>,
    product: Option<Seq<char>>,
) -> bool {
    let unit = billing_unit(price);
    let view = priced(unit, unit_price, duration, product);
    &&& crate::domain::opt_view(quote.amount) == view.amount
    &&& quote.basis@ == view.basis
    &&& quote.confidence == view.confidence
    &&& quote.exact == (view.confidence == QuoteConfidence::Exact)
    &&& crate::domain::opt_view(quote.pricing_sku) == Some(unit)
    &&& crate::domain::opt_view(quote.unit_price) == unit_price
    &&& quote.currency@ == currency_of(price)
    &&& match unit_price {
        Some(amount) => quote.raw_pricing@.len() == 1 && quote.raw_pricing@[0].sku@ == unit
            && quote.raw_pricing@[0].amount@ == amount,
        None => quote.raw_pricing@.len() == 0,
    }
}

/// What a price says of a generation. `unit_price` is the price's amount, and `product` that
/// amount times the seconds.
pub fn quote_from_price(
    price: &Json,
    unit_price: Option<String>,
    duration: Option<u32>,
    product: Option<String>,
) -> (quote: CostQuote)
    ensures
        quotes(
            quote,
            price@,
            crate::domain::opt_view(unit_price),
            duration,
            crate::domain::opt_view(product),
        ),
        quote.confidence == QuoteConfidence::Exact ==> quote.amount is Some,
        quote.exact <==> quote.confidence == QuoteConfidence::Exact,
        crate::json::field(price@, "unit"@) matches Some(JsonView::Text(name)) && whole(name)
            ==> crate::domain::opt_view(quote.amount) == crate::domain::opt_view(unit_price)
            && quote.exact == unit_price is Some,
{
    proof {
        units_are_recognised(billing_unit(price@));
    }
    let unit = match price.get_str("unit") {
        Some(unit) => unit,
        None => "unknown",
    };
    let mut raw_pricing: Vec<PriceSku> = Vec::new();
    if let Some(amount) = &unit_price {
        raw_pricing.push(PriceSku { sku: unit.to_owned(), amount: amount.clone() });
    }
    let currency = match price.get_str("currency") {
        Some(name) => if name.is_empty() {
            "USD"
        } else {
            name
        },
        None => "USD",
    };
    let plain = normalize_unit(unit);
    let (amount, basis, confidence) = if is_per_video(plain.as_str()) {
        (
            crate::domain::copy_text(&unit_price),
            concat("Advertised fal price per ", unit),
            if unit_price.is_some() {
                QuoteConfidence::Exact
            } else {
                QuoteConfidence::Unknown
            },
        )
    } else if is_per_second(plain.as_str()) {
        match (&unit_price, duration) {
            (Some(each), Some(seconds)) => {
                let number = decimal(seconds as u64);
                let start = concat3("Estimated ", number.as_str(), "s × $");
                let middle = concat3(start.as_str(), each.as_str(), "/");
                (product, concat(middle.as_str(), unit), QuoteConfidence::Estimated)
            },
            _ => (
                None,
                concat3("fal bills per ", unit, "; duration is required"),
                QuoteConfidence::Unknown,
            ),
        }
    } else {
        (None, concat("fal uses unsupported billing unit ", unit), QuoteConfidence::Unknown)
    };
    CostQuote {
        amount,
        basis,
        exact: matches!(confidence, QuoteConfidence::Exact),
        pricing_sku: Some(unit.to_owned()),
        unit_price,
        currency: currency.to_owned(),
        raw_pricing,
        confidence,
    }
}

/// What a generation with a model is expected to cost, by the answer to a question for its price.
/// There is no quote where the price of so many seconds is beyond what a decimal can hold.
pub fn quote_from_answer(answer: &Json, model_id: &str, duration: Option<u32>) -> (r: Result<
    Option<CostQuote>,
    ProviderError,
>)
    ensures
        match listed_price(answer@, model_id@) {
            None => r matches Err(e) && e@ == crate::providers::fal::fal_failure(
                ProviderErrorKind::Response,
                "fal pricing response does not include this model"@,
            ),
            Some(price) => {
                let unit_price = amount_in(amount_text(price));
                if needs_product(billing_unit(price), unit_price, duration) {
                    let product = crate::outside::product_of(unit_price->0, duration->0);
                    match r {
                        Ok(Some(quote)) => product is Some && quotes(
                            quote,
                            price,
                            unit_price,
                            duration,
                            product,
                        ),
                        Ok(None) => product is None,
                        Err(_) => false,
                    }
                } else {
                    r matches Ok(Some(quote)) && quotes(quote, price, unit_price, duration, None)
                }
            },
        },
{
    let price = match find_price(answer, model_id) {
        Some(price) => price,
        None => {
            return Err(response_error("fal pricing response does not include this model"));
        },
    };
    let unit_price = match price.get("unit_price") {
        Some(value) => {
            let text = match value.as_str() {
                Some(text) => text.to_owned(),
                None => render(value),
            };
            read_decimal(text.as_str())
        },
        None => None,
    };
    let unit = match price.get_str("unit") {
        Some(unit) => unit,
        None => "unknown",
    };
    let plain = normalize_unit(unit);
    if !is_per_video(plain.as_str()) && is_per_second(plain.as_str()) {
        if let Some(seconds) = duration {
            let product = match &unit_price {
                Some(each) => match multiply(each.as_str(), seconds) {
                    Some(product) => Some(product),
                    None => {
                        return Ok(None);
                    },
                },
                None => None,
            };
            return Ok(Some(quote_from_price(price, unit_price, duration, product)));
        }
    }
    Ok(Some(quote_from_price(price, unit_price, duration, None)))
}

/// Whether a text spells a unit's name: in letters of either case, with a space or a hyphen where
/// the name has an underscore.
pub open spec fn spells(unit: Seq<char>, name: Seq<char>) -> bool {
    &&& unit.len() == name.len()
    &&& forall|i: int|
        0 <= i < unit.len() ==> crate::text::lower(#[trigger] unit[i]) == name[i] || (name[i] == '_'
            && (unit[i] == ' ' || unit[i] == '-'))
}

proof fn replaced_char(s: Seq<char>, pat: Seq<char>, with: Seq<char>)
    requires
        pat.len() == 1,
        with.len() == 1,
    ensures
        crate::text::replaced(s, pat, with).len() == s.len(),
        forall|i: int|
            0 <= i < s.len() ==> #[trigger] crate::text::replaced(s, pat, with)[i] == (if s[i]
                == pat[0] {
                with[0]
            } else {
                s[i]
            }),
    decreases s.len(),
{
    let all = crate::text::replaced(s, pat, with);
    if s.len() > 0 {
        let rest = crate::text::replaced(s.skip(1), pat, with);
        replaced_char(s.skip(1), pat, with);
        assert(s.take(1) == pat <==> s[0] == pat[0]) by {
            if s[0] == pat[0] {
                assert(s.take(1) =~= pat);
            } else {
                assert(s.take(1)[0] == s[0]);
            }
        }
        assert forall|i: int| 0 <= i < s.len() implies #[trigger] all[i] == (if s[i] == pat[0] {
            with[0]
        } else {
            s[i]
        }) by {
            if i > 0 {
                assert(all[i] == rest[i - 1]);
                assert(s.skip(1)[i - 1] == s[i]);
            }
        }
    }
}

proof fn spelled_is_plain(unit: Seq<char>, name: Seq<char>)
    requires
        forall|i: int| 0 <= i < name.len() ==> #[trigger] name[i] != ' ' && name[i] != '-',
    ensures
        spells(unit, name) <==> plain_unit(unit) == name,
{
    reveal_strlit(" ");
    reveal_strlit("-");
    reveal_strlit("_");
    let small = crate::text::lower_text(unit);
    let spaced = crate::text::replaced(small, " "@, "_"@);
    replaced_char(small, " "@, "_"@);
    replaced_char(spaced, "-"@, "_"@);
    let plain = plain_unit(unit);
    assert(plain.len() == unit.len());
    assert forall|i: int| 0 <= i < unit.len() implies plain[i] == (if unit[i] == ' ' || unit[i]
        == '-' {
        '_'
    } else {
        crate::text::lower(#[trigger] unit[i])
    }) by {
        assert(small[i] == crate::text::lower(unit[i]));
        assert(spaced[i] == (if small[i] == ' ' {
            '_'
        } else {
            small[i]
        }));
    }
    if spells(unit, name) {
        assert(plain =~= name);
    }
    if plain == name {
        assert forall|i: int| 0 <= i < unit.len() implies crate::text::lower(#[trigger] unit[i])
            == name[i] || (name[i] == '_' && (unit[i] == ' ' || unit[i] == '-')) by {
            assert(plain[i] == name[i]);
        }
    }
}

/// Whether a unit is a whole generation, whatever it is called.
pub open spec fn whole(unit: Seq<char>) -> bool {
    spells(unit, "video"@) || spells(unit, "request"@) || spells(unit, "generation"@)
}

/// Whether a unit is a second of video, whatever it is called.
pub open spec fn timed(unit: Seq<char>) -> bool {
    spells(unit, "second"@) || spells(unit, "video_second"@) || spells(unit, "output_second"@)
}

proof fn units_are_recognised(unit: Seq<char>)
    ensures
        whole(unit) <==> per_video(unit),
        timed(unit) <==> per_second(unit),
        !(whole(unit) && timed(unit)),
{
    reveal_strlit("video");
    reveal_strlit("request");
    reveal_strlit("generation");
    reveal_strlit("second");
    reveal_strlit("video_second");
    reveal_strlit("output_second");
    spelled_is_plain(unit, "video"@);
    spelled_is_plain(unit, "request"@);
    spelled_is_plain(unit, "generation"@);
    spelled_is_plain(unit, "second"@);
    spelled_is_plain(unit, "video_second"@);
    spelled_is_plain(unit, "output_second"@);
    assert("video"@.len() == 5 && "request"@.len() == 7 && "generation"@.len() == 10);
    assert("second"@.len() == 6 && "video_second"@.len() == 12 && "output_second"@.len() == 13);
}

/// What is sold by the whole generation costs its price, whatever the duration, and that quote is
/// exact; two generations at one such price cost the same.
pub proof fn whole_generations_cost_their_price(
    quote: CostQuote,
    other: CostQuote,
    price: JsonView,
    unit: Seq<char>,
    unit_price: Option<Seq<char>>,
    duration: Option<u32>,
    other_duration: Option<u32>,
    product: Option<Seq<char>>,
    other_product: Option<Seq<char>>,
)
    requires
        crate::json::field(price, "unit"@) == Some(JsonView::Text(unit)),
        whole(unit),
        quotes(quote, price, unit_price, duration, product),
        quotes(other, price, unit_price, other_duration, other_product),
    ensures
        crate::domain::opt_view(quote.amount) == unit_price,
        crate::domain::opt_view(quote.amount) == crate::domain::opt_view(other.amount),
        quote.exact <==> unit_price is Some,
        unit_price is Some ==> quote.confidence == QuoteConfidence::Exact,
        unit_price is None ==> quote.confidence == QuoteConfidence::Unknown,
        unit.is_suffix_of(quote.basis@),
{
    units_are_recognised(unit);
    assert(("Advertised fal price per "@ + unit).skip("Advertised fal price per "@.len() as int)
        =~= unit);
}

/// What is sold by the second costs so many times its price, and that quote is an estimate; without
/// a duration or a price there is no amount.
pub proof fn seconds_cost_their_product(
    quote: CostQuote,
    price: JsonView,
    unit: Seq<char>,
    unit_price: Option<Seq<char>>,
    duration: Option<u32>,
    product: Option<Seq<char>>,
)
    requires
        crate::json::field(price, "unit"@) == Some(JsonView::Text(unit)),
        timed(unit),
        quotes(quote, price, unit_price, duration, product),
    ensures
        unit_price is Some && duration is Some ==> crate::domain::opt_view(quote.amount) == product
            && quote.confidence == QuoteConfidence::Estimated && unit.is_suffix_of(quote.basis@),
        unit_price is None || duration is None ==> quote.amount is None && quote.confidence
            == QuoteConfidence::Unknown,
        !quote.exact,
{
    units_are_recognised(unit);
    if let (Some(each), Some(seconds)) = (unit_price, duration) {
        let lead = "Estimated "@ + crate::text::numeral(seconds as nat) + "s × $"@ + each + "/"@;
        assert((lead + unit).skip(lead.len() as int) =~= unit);
    }
}

/// Nothing is said of the cost where the unit is not known, or the price names none.
pub proof fn unknown_units_have_no_amount(
    quote: CostQuote,
    price: JsonView,
    unit_price: Option<Seq<char>>,
    duration: Option<u32>,
    product: Option<Seq<char>>,
)
    requires
        crate::json::field(price, "unit"@) matches Some(JsonView::Text(unit)) ==> !whole(unit)
            && !timed(unit),
        quotes(quote, price, unit_price, duration, product),
    ensures
        quote.amount is None,
        quote.confidence == QuoteConfidence::Unknown,
        !quote.exact,
{
    reveal_strlit("unknown");
    reveal_strlit("video");
    reveal_strlit("request");
    reveal_strlit("generation");
    reveal_strlit("second");
    reveal_strlit("video_second");
    reveal_strlit("output_second");
    let unit = billing_unit(price);
    units_are_recognised(unit);
    if crate::json::field(price, "unit"@) != Some(JsonView::Text(unit)) {
        assert(unit == "unknown"@);
        assert(unit.len() == 7 && unit[0] == 'u' && crate::text::lower('u') == 'u');
        assert("request"@.len() == 7 && "request"@[0] == 'r');
        assert("video"@.len() == 5 && "generation"@.len() == 10 && "second"@.len() == 6);
        assert("video_second"@.len() == 12 && "output_second"@.len() == 13);
    }
}

/// A quote is exact only where it has an amount, and then the amount is the price itself; it
/// repeats the price and its unit, and its currency is the price's or dollars.
pub proof fn quotes_repeat_their_price(
    quote: CostQuote,
    price: JsonView,
    unit_price: Option<Seq<char>>,
    duration: Option<u32>,
    product: Option<Seq<char>>,
)
    requires
        quotes(quote, price, unit_price, duration, product),
    ensures
        quote.confidence == QuoteConfidence::Exact ==> quote.amount is Some
            && crate::domain::opt_view(quote.amount) == unit_price,
        quote.exact <==> quote.confidence == QuoteConfidence::Exact,
        unit_price is None ==> quote.amount is None && quote.raw_pricing@.len() == 0,
        crate::domain::opt_view(quote.unit_price) == unit_price,
        unit_price matches Some(amount) ==> quote.raw_pricing@.len() == 1
            && quote.raw_pricing@[0].amount@ == amount && Some(quote.raw_pricing@[0].sku@)
            == crate::domain::opt_view(quote.pricing_sku),
        crate::json::field(price, "unit"@) matches Some(JsonView::Text(unit))
            ==> crate::domain::opt_view(quote.pricing_sku) == Some(unit),
        crate::json::field(price, "currency"@) matches Some(JsonView::Text(name)) ==> (name.len() > 0
            ==> quote.currency@ == name),
        !(crate::json::field(price, "currency"@) matches Some(JsonView::Text(name)) && name.len()
            > 0) ==> quote.currency@ == "USD"@,
{
}

/// The price of a model is the first in the answer that names it, and there is none only where
/// none does.
pub proof fn prices_belong_to_their_model(
    answer: JsonView,
    prices: Seq<JsonView>,
    model_id: Seq<char>,
    at: int,
)
    requires
        crate::json::field(answer, "prices"@) == Some(JsonView::Array(prices)),
        0 <= at <= prices.len(),
        forall|i: int|
            0 <= i < at ==> crate::json::field(#[trigger] prices[i], "endpoint_id"@) != Some(
                JsonView::Text(model_id),
            ),
    ensures
        at == prices.len() ==> listed_price(answer, model_id) is None,
        at < prices.len() && crate::json::field(prices[at], "endpoint_id"@) == Some(
            JsonView::Text(model_id),
        ) ==> listed_price(answer, model_id) == Some(prices[at]),
{
    first_entry(prices, model_id, at);
}

proof fn first_entry(prices: Seq<JsonView>, model_id: Seq<char>, at: int)
    requires
        0 <= at <= prices.len(),
        forall|i: int|
            0 <= i < at ==> crate::json::field(#[trigger] prices[i], "endpoint_id"@) != Some(
                JsonView::Text(model_id),
            ),
    ensures
        at == prices.len() ==> price_entry(prices, model_id) is None,
        at < prices.len() && crate::json::field(prices[at], "endpoint_id"@) == Some(
            JsonView::Text(model_id),
        ) ==> price_entry(prices, model_id) == Some(prices[at]),
    decreases prices.len(),
{
    if at > 0 {
        let rest = prices.skip(1);
        assert forall|i: int| 0 <= i < at - 1 implies crate::json::field(
            #[trigger] rest[i],
            "endpoint_id"@,
        ) != Some(JsonView::Text(model_id)) by {
            assert(rest[i] == prices[i + 1]);
        }
        assert(crate::json::field(prices[0], "endpoint_id"@) != Some(JsonView::Text(model_id)));
        first_entry(rest, model_id, at - 1);
    }
}

} // verus!
