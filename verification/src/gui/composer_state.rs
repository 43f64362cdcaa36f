//! Which model and which settings the composer shows, and when a fresh catalog changes them.

use crate::domain::{PriceSku, ProviderId, VideoCatalog, VideoModel};
use crate::json::{copy_json, json_eq, Json, JsonView};
use crate::outside::plain_decimal;
use crate::text::same_text;
use vstd::prelude::*;

verus! {

/// The widest window that counts as compact.
pub const COMPACT_MAX_WIDTH: u32 = 799;

/// What the window's shell shows.
#[derive(Debug, Clone, Copy, PartialEq, Eq, Structural)]
pub struct ShellLayout {
    pub header_switcher: bool,
    pub bottom_switcher: bool,
    pub inspector_pinned: bool,
}

/// What the window's shell shows at a width.
pub fn shell_layout_for_width(width: u32) -> (layout: ShellLayout)
    ensures
        layout == (ShellLayout {
            header_switcher: width > COMPACT_MAX_WIDTH,
            bottom_switcher: width <= COMPACT_MAX_WIDTH,
            inspector_pinned: width > COMPACT_MAX_WIDTH,
        }),
        layout.header_switcher != layout.bottom_switcher,
{
    let compact = width <= COMPACT_MAX_WIDTH;
    ShellLayout {
        header_switcher: !compact,
        bottom_switcher: compact,
        inspector_pinned: !compact,
    }
}

/// Whether sound is asked for.
#[derive(Debug, Clone, Copy, PartialEq, Eq, Structural)]
pub enum AudioChoice {
    ProviderDefault,
    On,
    Off,
}

impl AudioChoice {
    /// What a request says for the choice.
    pub open spec fn request(self) -> Option<bool> {
        match self {
            AudioChoice::ProviderDefault => None,
            AudioChoice::On => Some(true),
            AudioChoice::Off => Some(false),
        }
    }

    /// The choice's place in the list of choices.
    pub open spec fn place(self) -> u32 {
        match self {
            AudioChoice::ProviderDefault => 0,
            AudioChoice::On => 1,
            AudioChoice::Off => 2,
        }
    }

    /// The choice at a place of the list.
    pub open spec fn at(selected: u32) -> AudioChoice {
        if selected == 1 {
            AudioChoice::On
        } else if selected == 2 {
            AudioChoice::Off
        } else {
            AudioChoice::ProviderDefault
        }
    }

    /// What a request says for the choice.
    pub fn request_value(self) -> (value: Option<bool>)
        ensures
            value == self.request(),
    {
        match self {
            AudioChoice::ProviderDefault => None,
            AudioChoice::On => Some(true),
            AudioChoice::Off => Some(false),
        }
    }

    /// The choice for which a request says this.
    pub fn from_request(value: Option<bool>) -> (choice: AudioChoice)
        ensures
            choice.request() == value,
    {
        match value {
            None => AudioChoice::ProviderDefault,
            Some(on) => if on {
                AudioChoice::On
            } else {
                AudioChoice::Off
            },
        }
    }

    /// The choice's place in the list of choices.
    pub fn selected(self) -> (place: u32)
        ensures
            place == self.place(),
    {
        match self {
            AudioChoice::ProviderDefault => 0,
            AudioChoice::On => 1,
            AudioChoice::Off => 2,
        }
    }

    /// The choice at a place of the list; the provider's default at any other place.
    pub fn from_selected(selected: u32) -> (choice: AudioChoice)
        ensures
            choice == AudioChoice::at(selected),
    {
        if selected == 1 {
            AudioChoice::On
        } else if selected == 2 {
            AudioChoice::Off
        } else {
            AudioChoice::ProviderDefault
        }
    }
}

/// A choice, what a request says for it and its place in the list determine each other.
pub proof fn audio_choices_map_exactly(a: AudioChoice, b: AudioChoice)
    ensures
        AudioChoice::at(a.place()) == a,
        a.request() == b.request() ==> a == b,
        a.place() == b.place() ==> a == b,
{
}

/// A model of a provider.
#[derive(Debug)]
pub struct ModelKey {
    pub provider_id: ProviderId,
    pub model_id: String,
}

/// The mathematical value of a key.
pub type KeyView = (Seq<char>, Seq<char>);

impl View for ModelKey {
    type V = KeyView;

    open spec fn view(&self) -> KeyView {
        (self.provider_id@, self.model_id@)
    }
}

impl ModelKey {
    /// The model with this identifier.
    pub fn new(provider_id: ProviderId, model_id: String) -> (key: ModelKey)
        ensures
            key@ == (provider_id@, model_id@),
    {
        ModelKey { provider_id, model_id }
    }
}

/// The model that the composer shows.
#[derive(Debug)]
pub enum ModelSelection {
    Available(ModelKey),
    /// A restored draft names a model that the catalog does not list.
    Unavailable(ModelKey),
    Empty(ProviderId),
}

/// The mathematical value of a selection.
pub enum SelectionView {
    Available(KeyView),
    Unavailable(KeyView),
    Empty(Seq<char>),
}

impl View for ModelSelection {
    type V = SelectionView;

    open spec fn view(&self) -> SelectionView {
        match *self {
            ModelSelection::Available(key) => SelectionView::Available(key@),
            ModelSelection::Unavailable(key) => SelectionView::Unavailable(key@),
            ModelSelection::Empty(id) => SelectionView::Empty(id@),
        }
    }
}

/// The model that the composer shows: the one that a draft names, whether the catalog lists it or
/// not; else the one shown before, if the catalog lists it; else, in a brand-new draft, the
/// preferred one.
pub open spec fn selection(
    catalog: VideoCatalog,
    exact_saved_model: Option<Seq<char>>,
    previous_model: Option<Seq<char>>,
    brand_new: bool,
) -> SelectionView {
    let provider = catalog.provider_id@;
    match exact_saved_model {
        Some(id) => if crate::domain::catalog_has(catalog, id) {
            SelectionView::Available((provider, id))
        } else {
            SelectionView::Unavailable((provider, id))
        },
        None => match previous_model {
            Some(id) if crate::domain::catalog_has(catalog, id) => SelectionView::Available(
                (provider, id),
            ),
            _ => match catalog.preferred {
                Some(id) if brand_new => SelectionView::Available((provider, id@)),
                _ => SelectionView::Empty(provider),
            },
        },
    }
}

/// The text of an optional reference.
pub open spec fn opt_str(s: Option<&str>) -> Option<Seq<char>> {
    match s {
        Some(t) => Some(t@),
        None => None,
    }
}

/// Finds the model that the composer shows.
pub fn resolve_selection(
    catalog: &VideoCatalog,
    exact_saved_model: Option<&str>,
    previous_model: Option<&str>,
    brand_new: bool,
) -> (r: ModelSelection)
    ensures
        r@ == selection(*catalog, opt_str(exact_saved_model), opt_str(previous_model), brand_new),
{
    if let Some(id) = exact_saved_model {
        let key = ModelKey::new(catalog.provider_id.copy(), id.to_owned());
        return match catalog.find(id) {
            Some(at) => {
                assert(crate::domain::catalog_has(*catalog, id@));
                ModelSelection::Available(key)
            },
            None => ModelSelection::Unavailable(key),
        };
    }
    if let Some(id) = previous_model {
        if let Some(at) = catalog.find(id) {
            assert(crate::domain::catalog_has(*catalog, id@));
            return ModelSelection::Available(
                ModelKey::new(catalog.provider_id.copy(), id.to_owned()),
            );
        }
    }
    if brand_new {
        if let Some(id) = &catalog.preferred {
            return ModelSelection::Available(
                ModelKey::new(catalog.provider_id.copy(), id.clone()),
            );
        }
    }
    ModelSelection::Empty(catalog.provider_id.copy())
}

/// A draft that names a model is never shown with another one.
pub proof fn saved_models_are_never_replaced(
    catalog: VideoCatalog,
    id: Seq<char>,
    previous_model: Option<Seq<char>>,
    brand_new: bool,
)
    ensures
        match selection(catalog, Some(id), previous_model, brand_new) {
            SelectionView::Available(key) => key.1 == id && crate::domain::catalog_has(catalog, id),
            SelectionView::Unavailable(key) => key.1 == id && !crate::domain::catalog_has(
                catalog,
                id,
            ),
            SelectionView::Empty(_) => false,
        },
{
}

/// Where a setting comes from.
#[derive(Debug, Clone, Copy, PartialEq, Eq, Structural)]
pub enum SettingsSource {
    ExactDraft,
    Remembered,
    ProviderDefault,
}

/// Where a setting comes from.
pub open spec fn setting_source(exact: bool, remembered: bool) -> SettingsSource {
    if exact {
        SettingsSource::ExactDraft
    } else if remembered {
        SettingsSource::Remembered
    } else {
        SettingsSource::ProviderDefault
    }
}

/// Finds a setting: the draft's own, else the remembered one, else the provider's default.
pub fn resolve_setting<T: Clone>(
    exact_draft: Option<&T>,
    remembered: Option<&T>,
    provider_default: &T,
) -> (r: (T, SettingsSource))
    ensures
        r.1 == setting_source(exact_draft is Some, remembered is Some),
        match r.1 {
            SettingsSource::ExactDraft => cloned(*exact_draft->0, r.0),
            SettingsSource::Remembered => cloned(*remembered->0, r.0),
            SettingsSource::ProviderDefault => cloned(*provider_default, r.0),
        },
{
    if let Some(value) = exact_draft {
        (value.clone(), SettingsSource::ExactDraft)
    } else if let Some(value) = remembered {
        (value.clone(), SettingsSource::Remembered)
    } else {
        (provider_default.clone(), SettingsSource::ProviderDefault)
    }
}

/// What of a model's capabilities a reviewed generation depends on.
#[derive(Debug)]
pub struct CapabilityFingerprint {
    pub generated_audio_supported: bool,
    pub generated_audio_default: Option<bool>,
    pub seed: Option<bool>,
    pub durations: Vec<u32>,
    pub resolutions: Vec<String>,
    pub aspect_ratios: Vec<String>,
    pub sizes: Vec<String>,
    pub frame_images: Vec<String>,
    pub input_schema: Option<Json>,
    pub pricing: Vec<PriceSku>,
}

/// The mathematical value of a fingerprint.
pub struct FingerprintView {
    pub generated_audio_supported: bool,
    pub generated_audio_default: Option<bool>,
    pub seed: Option<bool>,
    pub durations: Seq<u32>,
    pub resolutions: Seq<Seq<char>>,
    pub aspect_ratios: Seq<Seq<char>>,
    pub sizes: Seq<Seq<char>>,
    pub frame_images: Seq<Seq<char>>,
    pub input_schema: Option<JsonView>,
    pub pricing: Seq<(Seq<char>, Seq<char>)>,
}

/// The values of prices.
pub open spec fn prices_view(list: Seq<PriceSku>) -> Seq<(Seq<char>, Seq<char>)> {
    Seq::new(list.len(), |i: int| (list[i].sku@, list[i].amount@))
}

/// The value of an optional document.
pub open spec fn opt_json(json: Option<Json>) -> Option<JsonView> {
    match json {
        Some(j) => Some(j@),
        None => None,
    }
}

impl View for CapabilityFingerprint {
    type V = FingerprintView;

    open spec fn view(&self) -> FingerprintView {
        FingerprintView {
            generated_audio_supported: self.generated_audio_supported,
            generated_audio_default: self.generated_audio_default,
            seed: self.seed,
            durations: self.durations@,
            resolutions: crate::text::texts(self.resolutions@),
            aspect_ratios: crate::text::texts(self.aspect_ratios@),
            sizes: crate::text::texts(self.sizes@),
            frame_images: crate::text::texts(self.frame_images@),
            input_schema: opt_json(self.input_schema),
            pricing: prices_view(self.pricing@),
        }
    }
}

/// What of a model's capabilities a reviewed generation depends on.
pub open spec fn capabilities(model: VideoModel) -> FingerprintView {
    FingerprintView {
        generated_audio_supported: model.generated_audio_supported,
        generated_audio_default: model.generated_audio_default,
        seed: model.seed,
        durations: model.supported_durations@,
        resolutions: crate::text::texts(model.supported_resolutions@),
        aspect_ratios: crate::text::texts(model.supported_aspect_ratios@),
        sizes: crate::text::texts(model.supported_sizes@),
        frame_images: crate::text::texts(model.supported_frame_images@),
        input_schema: opt_json(model.input_schema),
        pricing: prices_view(model.pricing_skus@),
    }
}

/// What an amount is, however many zeros it is written with.
pub open spec fn amount_of(text: Seq<char>) -> Seq<char> {
    match crate::outside::plain_decimal_of(text) {
        Some(plain) => plain,
        None => text,
    }
}

/// The price that is listed for something, if there is one.
pub open spec fn price_of(list: Seq<(Seq<char>, Seq<char>)>, sku: Seq<char>) -> Option<Seq<char>>
    decreases list.len(),
{
    if list.len() == 0 {
        None
    } else if list[0].0 == sku {
        Some(amount_of(list[0].1))
    } else {
        price_of(list.skip(1), sku)
    }
}

/// Whether two lists have the same price for everything, in whatever order and however written.
pub open spec fn same_pricing(
    a: Seq<(Seq<char>, Seq<char>)>,
    b: Seq<(Seq<char>, Seq<char>)>,
) -> bool {
    forall|sku: Seq<char>| #[trigger] price_of(a, sku) == price_of(b, sku)
}

/// Whether two fingerprints are of the same capabilities.
pub open spec fn same_capabilities(a: FingerprintView, b: FingerprintView) -> bool {
    &&& a.generated_audio_supported == b.generated_audio_supported
    &&& a.generated_audio_default == b.generated_audio_default
    &&& a.seed == b.seed
    &&& a.durations == b.durations
    &&& a.resolutions == b.resolutions
    &&& a.aspect_ratios == b.aspect_ratios
    &&& a.sizes == b.sizes
    &&& a.frame_images == b.frame_images
    &&& same_pricing(a.pricing, b.pricing)
    &&& match (a.input_schema, b.input_schema) {
        (Some(x), Some(y)) => crate::json::same_json(x, y),
        (None, None) => true,
        _ => false,
    }
}

fn copy_texts(list: &Vec<String>) -> (c: Vec<String>)
    ensures
        crate::text::texts(c@) == crate::text::texts(list@),
{
    let mut c: Vec<String> = Vec::new();
    let mut i: usize = 0;
    while i < list.len()
        invariant
            i <= list@.len(),
            c@.len() == i,
            forall|j: int| 0 <= j < i ==> (#[trigger] c@[j])@ == list@[j]@,
        decreases list@.len() - i,
    {
        c.push(list[i].clone());
        i = i + 1;
    }
    assert(crate::text::texts(c@) =~= crate::text::texts(list@));
    c
}

fn copy_numbers(list: &Vec<u32>) -> (c: Vec<u32>)
    ensures
        c@ == list@,
{
    let mut c: Vec<u32> = Vec::new();
    let mut i: usize = 0;
    while i < list.len()
        invariant
            i <= list@.len(),
            c@ == list@.take(i as int),
        decreases list@.len() - i,
    {
        c.push(list[i]);
        assert(list@.take(i + 1) =~= list@.take(i as int).push(list@[i as int]));
        i = i + 1;
    }
    assert(list@.take(list@.len() as int) =~= list@);
    c
}

fn copy_prices(list: &Vec<PriceSku>) -> (c: Vec<PriceSku>)
    ensures
        prices_view(c@) == prices_view(list@),
{
    let mut c: Vec<PriceSku> = Vec::new();
    let mut i: usize = 0;
    while i < list.len()
        invariant
            i <= list@.len(),
            c@.len() == i,
            forall|j: int|
                0 <= j < i ==> (#[trigger] c@[j]).sku@ == list@[j].sku@ && c@[j].amount@
                    == list@[j].amount@,
        decreases list@.len() - i,
    {
        c.push(PriceSku { sku: list[i].sku.clone(), amount: list[i].amount.clone() });
        i = i + 1;
    }
    assert(prices_view(c@) =~= prices_view(list@));
    c
}

fn same_texts(a: &Vec<String>, b: &Vec<String>) -> (same: bool)
    ensures
        same == (crate::text::texts(a@) == crate::text::texts(b@)),
{
    let ghost x = crate::text::texts(a@);
    let ghost y = crate::text::texts(b@);
    if a.len() != b.len() {
        assert(x.len() != y.len());
        return false;
    }
    let mut i: usize = 0;
    while i < a.len()
        invariant
            i <= a@.len() == b@.len(),
            x == crate::text::texts(a@),
            y == crate::text::texts(b@),
            forall|j: int| 0 <= j < i ==> #[trigger] x[j] == y[j],
        decreases a@.len() - i,
    {
        assert(x[i as int] == a@[i as int]@ && y[i as int] == b@[i as int]@);
        if !same_text(a[i].as_str(), b[i].as_str()) {
            return false;
        }
        i = i + 1;
    }
    assert(x =~= y);
    true
}

fn same_numbers(a: &Vec<u32>, b: &Vec<u32>) -> (same: bool)
    ensures
        same == (a@ == b@),
{
    if a.len() != b.len() {
        return false;
    }
    let mut i: usize = 0;
    while i < a.len()
        invariant
            i <= a@.len() == b@.len(),
            forall|j: int| 0 <= j < i ==> #[trigger] a@[j] == b@[j],
        decreases a@.len() - i,
    {
        if a[i] != b[i] {
            return false;
        }
        i = i + 1;
    }
    assert(a@ =~= b@);
    true
}

fn amount(text: &str) -> (s: String)
    ensures
        s@ == amount_of(text@),
{
    match plain_decimal(text) {
        Some(plain) => plain,
        None => text.to_owned(),
    }
}

fn find_price(list: &Vec<PriceSku>, sku: &str) -> (r: Option<String>)
    ensures
        crate::domain::opt_view(r) == price_of(prices_view(list@), sku@),
{
    let ghost view = prices_view(list@);
    let mut i: usize = 0;
    assert(view.skip(0) =~= view);
    while i < list.len()
        invariant
            i <= list@.len(),
            view == prices_view(list@),
            price_of(view, sku@) == price_of(view.skip(i as int), sku@),
        decreases list@.len() - i,
    {
        assert(view.skip(i as int)[0] == (list@[i as int].sku@, list@[i as int].amount@));
        assert(view.skip(i as int).skip(1) =~= view.skip(i + 1));
        if same_text(list[i].sku.as_str(), sku) {
            return Some(amount(list[i].amount.as_str()));
        }
        i = i + 1;
    }
    None
}

fn same_price(a: &Option<String>, b: &Option<String>) -> (same: bool)
    ensures
        same == (crate::domain::opt_view(*a) == crate::domain::opt_view(*b)),
{
    match (a, b) {
        (Some(x), Some(y)) => same_text(x.as_str(), y.as_str()),
        (None, None) => true,
        _ => false,
    }
}

proof fn unlisted_has_no_price(list: Seq<(Seq<char>, Seq<char>)>, sku: Seq<char>)
    requires
        forall|i: int| 0 <= i < list.len() ==> (#[trigger] list[i]).0 != sku,
    ensures
        price_of(list, sku) is None,
    decreases list.len(),
{
    if list.len() > 0 {
        assert(list[0].0 != sku);
        assert forall|i: int| 0 <= i < list.skip(1).len() implies (#[trigger] list.skip(1)[i]).0
            != sku by {
            assert(list[i + 1].0 != sku);
        }
        unlisted_has_no_price(list.skip(1), sku);
    }
}

fn prices_agree(a: &Vec<PriceSku>, b: &Vec<PriceSku>, names: &Vec<PriceSku>) -> (same: bool)
    ensures
        same == forall|i: int|
            0 <= i < names@.len() ==> price_of(
                prices_view(a@),
                (#[trigger] names@[i]).sku@,
            ) == price_of(prices_view(b@), names@[i].sku@),
{
    let mut i: usize = 0;
    while i < names.len()
        invariant
            i <= names@.len(),
            forall|k: int|
                0 <= k < i ==> price_of(prices_view(a@), (#[trigger] names@[k]).sku@) == price_of(
                    prices_view(b@),
                    names@[k].sku@,
                ),
        decreases names@.len() - i,
    {
        let x = find_price(a, names[i].sku.as_str());
        let y = find_price(b, names[i].sku.as_str());
        if !same_price(&x, &y) {
            assert(price_of(prices_view(a@), names@[i as int].sku@) != price_of(
                prices_view(b@),
                names@[i as int].sku@,
            ));
            return false;
        }
        i = i + 1;
    }
    true
}

fn same_prices(a: &Vec<PriceSku>, b: &Vec<PriceSku>) -> (same: bool)
    ensures
        same == same_pricing(prices_view(a@), prices_view(b@)),
{
    let ghost x = prices_view(a@);
    let ghost y = prices_view(b@);
    let same = prices_agree(a, b, a) && prices_agree(a, b, b);
    proof {
        if same {
            assert forall|sku: Seq<char>| #[trigger] price_of(x, sku) == price_of(y, sku) by {
                if exists|i: int| 0 <= i < a@.len() && (#[trigger] a@[i]).sku@ == sku {
                } else if exists|i: int| 0 <= i < b@.len() && (#[trigger] b@[i]).sku@ == sku {
                } else {
                    assert forall|i: int| 0 <= i < x.len() implies (#[trigger] x[i]).0 != sku by {
                        assert(a@[i].sku@ != sku);
                    }
                    assert forall|i: int| 0 <= i < y.len() implies (#[trigger] y[i]).0 != sku by {
                        assert(b@[i].sku@ != sku);
                    }
                    unlisted_has_no_price(x, sku);
                    unlisted_has_no_price(y, sku);
                }
            }
        }
    }
    same
}

impl CapabilityFingerprint {
    /// The fingerprint of a model.
    pub fn of(model: &VideoModel) -> (f: CapabilityFingerprint)
        ensures
            f@ == capabilities(*model),
    {
        CapabilityFingerprint {
            generated_audio_supported: model.generated_audio_supported,
            generated_audio_default: model.generated_audio_default,
            seed: model.seed,
            durations: copy_numbers(&model.supported_durations),
            resolutions: copy_texts(&model.supported_resolutions),
            aspect_ratios: copy_texts(&model.supported_aspect_ratios),
            sizes: copy_texts(&model.supported_sizes),
            frame_images: copy_texts(&model.supported_frame_images),
            input_schema: match &model.input_schema {
                Some(schema) => Some(copy_json(schema)),
                None => None,
            },
            pricing: copy_prices(&model.pricing_skus),
        }
    }

    /// Whether both are of the same capabilities.
    pub fn same(&self, other: &CapabilityFingerprint) -> (same: bool)
        ensures
            same == same_capabilities(self@, other@),
    {
        self.generated_audio_supported == other.generated_audio_supported
            && self.generated_audio_default == other.generated_audio_default && self.seed
            == other.seed && same_numbers(&self.durations, &other.durations) && same_texts(
            &self.resolutions,
            &other.resolutions,
        ) && same_texts(&self.aspect_ratios, &other.aspect_ratios) && same_texts(
            &self.sizes,
            &other.sizes,
        ) && same_texts(&self.frame_images, &other.frame_images) && same_prices(
            &self.pricing,
            &other.pricing,
        ) && match (&self.input_schema, &other.input_schema) {
            (Some(x), Some(y)) => json_eq(x, y),
            (None, None) => true,
            _ => false,
        }
    }
}

/// A model and its fingerprint.
#[derive(Debug)]
pub struct KnownModel {
    pub id: String,
    pub fingerprint: CapabilityFingerprint,
}

/// The values of known models.
pub open spec fn known_view(list: Seq<KnownModel>) -> Seq<(Seq<char>, FingerprintView)> {
    Seq::new(list.len(), |i: int| (list[i].id@, list[i].fingerprint@))
}

/// The models of a catalog with their fingerprints.
pub open spec fn catalog_view(models: Seq<VideoModel>) -> Seq<(Seq<char>, FingerprintView)> {
    Seq::new(models.len(), |i: int| (models[i].id@, capabilities(models[i])))
}

/// The fingerprint of a model: the last one listed under its identifier.
pub open spec fn last_known(list: Seq<(Seq<char>, FingerprintView)>, id: Seq<char>) -> Option<
    FingerprintView,
>
    decreases list.len(),
{
    if list.len() == 0 {
        None
    } else if list.last().0 == id {
        Some(list.last().1)
    } else {
        last_known(list.drop_last(), id)
    }
}

fn find_known<'a>(list: &'a Vec<KnownModel>, id: &str) -> (r: Option<&'a CapabilityFingerprint>)
    ensures
        match r {
            Some(f) => last_known(known_view(list@), id@) == Some(f@),
            None => last_known(known_view(list@), id@) is None,
        },
{
    let ghost view = known_view(list@);
    let mut n: usize = list.len();
    assert(view.take(n as int) =~= view);
    while n > 0
        invariant
            n <= list@.len(),
            view == known_view(list@),
            last_known(view, id@) == last_known(view.take(n as int), id@),
        decreases n,
    {
        assert(view.take(n as int).last() == (list@[n - 1].id@, list@[n - 1].fingerprint@));
        if same_text(list[n - 1].id.as_str(), id) {
            return Some(&list[n - 1].fingerprint);
        }
        assert(view.take(n as int).drop_last() =~= view.take(n - 1));
        n = n - 1;
    }
    None
}

/// The last catalog of a provider.
#[derive(Debug)]
pub struct KnownCatalog {
    pub provider_id: ProviderId,
    pub models: Vec<KnownModel>,
}

/// The last catalog of each provider.
#[derive(Debug)]
pub struct CatalogReducer {
    catalogs: Vec<KnownCatalog>,
}

/// The first catalog in a list that is a provider's.
spec fn catalog_in(list: Seq<KnownCatalog>, provider: Seq<char>) -> Option<
    Seq<(Seq<char>, FingerprintView)>,
>
    decreases list.len(),
{
    if list.len() == 0 {
        None
    } else if list[0].provider_id@ == provider {
        Some(known_view(list[0].models@))
    } else {
        catalog_in(list.skip(1), provider)
    }
}

/// Whether a fresh catalog changes the selected model in a way that a review does not survive.
pub open spec fn invalidates(
    before: Option<Seq<(Seq<char>, FingerprintView)>>,
    after: Seq<(Seq<char>, FingerprintView)>,
    provider: Seq<char>,
    selected: Option<KeyView>,
) -> bool {
    match selected {
        Some(key) if key.0 == provider => match before {
            Some(models) => match (last_known(models, key.1), last_known(after, key.1)) {
                (Some(x), Some(y)) => !same_capabilities(x, y),
                (Some(_), None) => true,
                _ => false,
            },
            None => false,
        },
        _ => false,
    }
}

impl CatalogReducer {
    /// The last catalog of a provider.
    pub closed spec fn known(self, provider: Seq<char>) -> Option<
        Seq<(Seq<char>, FingerprintView)>,
    > {
        catalog_in(self.catalogs@, provider)
    }

    /// No catalog is known.
    pub fn new() -> (r: CatalogReducer)
        ensures
            forall|provider: Seq<char>| r.known(provider) is None,
    {
        CatalogReducer { catalogs: Vec::new() }
    }

    /// Takes a fresh catalog in the place of its provider's last one; `true` if that changes the
    /// selected model in a way that a review does not survive.
    pub fn apply(&mut self, catalog: &VideoCatalog, selected: Option<&ModelKey>) -> (changed: bool)
        ensures
            final(self).known(catalog.provider_id@) == Some(catalog_view(catalog.models@)),
            forall|other: Seq<char>|
                other != catalog.provider_id@ ==> final(self).known(other) == old(self).known(
                    other,
                ),
            changed == invalidates(
                old(self).known(catalog.provider_id@),
                catalog_view(catalog.models@),
                catalog.provider_id@,
                match selected {
                    Some(key) => Some(key@),
                    None => None,
                },
            ),
    {
        let ghost provider = catalog.provider_id@;
        let mut next: Vec<KnownModel> = Vec::new();
        let mut i: usize = 0;
        while i < catalog.models.len()
            invariant
                i <= catalog.models@.len(),
                next@.len() == i,
                forall|j: int|
                    0 <= j < i ==> (#[trigger] next@[j]).id@ == catalog.models@[j].id@
                        && next@[j].fingerprint@ == capabilities(catalog.models@[j]),
            decreases catalog.models@.len() - i,
        {
            next.push(
                KnownModel {
                    id: catalog.models[i].id.clone(),
                    fingerprint: CapabilityFingerprint::of(&catalog.models[i]),
                },
            );
            i = i + 1;
        }
        assert(known_view(next@) =~= catalog_view(catalog.models@));
        let ghost list = self.catalogs@;
        let mut at: usize = 0;
        assert(list.skip(0) =~= list);
        while at < self.catalogs.len() && !self.catalogs[at].provider_id.same(
            &catalog.provider_id,
        )
            invariant
                at <= self.catalogs@.len(),
                self.catalogs@ == list,
                provider == catalog.provider_id@,
                forall|j: int| 0 <= j < at ==> (#[trigger] list[j]).provider_id@ != provider,
                catalog_in(list, provider) == catalog_in(list.skip(at as int), provider),
            decreases self.catalogs@.len() - at,
        {
            assert(list.skip(at as int)[0] == list[at as int]);
            assert(list.skip(at as int).skip(1) =~= list.skip(at + 1));
            at = at + 1;
        }
        let changed = match selected {
            Some(key) => if key.provider_id.same(&catalog.provider_id) && at < self.catalogs.len() {
                assert(list.skip(at as int)[0] == list[at as int]);
                match find_known(&self.catalogs[at].models, key.model_id.as_str()) {
                    Some(before) => match find_known(&next, key.model_id.as_str()) {
                        Some(after) => !before.same(after),
                        None => true,
                    },
                    None => false,
                }
            } else {
                false
            },
            None => false,
        };
        proof {
            if at < list.len() {
                assert(list.skip(at as int)[0] == list[at as int]);
            }
        }
        let fresh = KnownCatalog { provider_id: catalog.provider_id.copy(), models: next };
        let ghost new_entry = fresh;
        if at < self.catalogs.len() {
            self.catalogs.set(at, fresh);
            proof {
                assert(self.catalogs@ =~= list.update(at as int, new_entry));
                replaced_catalog(list, at as int, new_entry, provider);
                assert forall|other: Seq<char>| other != provider implies self.known(other)
                    == catalog_in(list, other) by {
                    replaced_catalog(list, at as int, new_entry, other);
                }
            }
        } else {
            self.catalogs.push(fresh);
            proof {
                pushed_catalog(list, new_entry, provider);
                assert forall|other: Seq<char>| other != provider implies self.known(other)
                    == catalog_in(list, other) by {
                    pushed_catalog(list, new_entry, other);
                }
            }
        }
        changed
    }
}

proof fn replaced_catalog(list: Seq<KnownCatalog>, at: int, entry: KnownCatalog, other: Seq<char>)
    requires
        0 <= at < list.len(),
        list[at].provider_id@ == entry.provider_id@,
        forall|j: int|
            0 <= j < at ==> (#[trigger] list[j]).provider_id@ != entry.provider_id@,
    ensures
        catalog_in(list.update(at, entry), entry.provider_id@) == Some(
            known_view(entry.models@),
        ),
        other != entry.provider_id@ ==> catalog_in(list.update(at, entry), other) == catalog_in(
            list,
            other,
        ),
    decreases list.len(),
{
    let after = list.update(at, entry);
    if at > 0 {
        assert(after.skip(1) =~= list.skip(1).update(at - 1, entry));
        assert forall|j: int| 0 <= j < at - 1 implies (#[trigger] list.skip(1)[j]).provider_id@
            != entry.provider_id@ by {
            assert(list.skip(1)[j] == list[j + 1]);
        }
        replaced_catalog(list.skip(1), at - 1, entry, other);
        assert(after[0] == list[0]);
    } else {
        assert(after.skip(1) =~= list.skip(1));
    }
}

proof fn pushed_catalog(list: Seq<KnownCatalog>, entry: KnownCatalog, other: Seq<char>)
    requires
        forall|j: int|
            0 <= j < list.len() ==> (#[trigger] list[j]).provider_id@ != entry.provider_id@,
    ensures
        catalog_in(list.push(entry), entry.provider_id@) == Some(known_view(entry.models@)),
        other != entry.provider_id@ ==> catalog_in(list.push(entry), other) == catalog_in(
            list,
            other,
        ),
    decreases list.len(),
{
    let after = list.push(entry);
    if list.len() > 0 {
        assert(after.skip(1) =~= list.skip(1).push(entry));
        assert forall|j: int| 0 <= j < list.skip(1).len() implies (#[trigger] list.skip(
            1,
        )[j]).provider_id@ != entry.provider_id@ by {
            assert(list.skip(1)[j] == list[j + 1]);
        }
        pushed_catalog(list.skip(1), entry, other);
        assert(after[0] == list[0]);
    } else {
        assert(after[0] == entry);
        assert(after.skip(1) =~= Seq::<KnownCatalog>::empty());
        reveal_with_fuel(catalog_in, 2);
    }
}

/// A catalog that comes a second time invalidates nothing.
pub proof fn repeated_catalogs_change_nothing(
    models: Seq<(Seq<char>, FingerprintView)>,
    provider: Seq<char>,
    selected: Option<KeyView>,
)
    ensures
        !invalidates(Some(models), models, provider, selected),
{
    if let Some(key) = selected {
        if let Some(f) = last_known(models, key.1) {
            if let Some(schema) = f.input_schema {
                crate::json::same_json_reflexive(schema);
            }
        }
    }
}

} // verus!
