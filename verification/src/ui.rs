//! What the terminal screens say, line by line.

use crate::domain::{ProviderId, VideoRequest, FAL_PROVIDER_ID, OPENROUTER_PROVIDER_ID};
use crate::json::{Json, JsonView};
use crate::outside::read_document;
use crate::text::{
    ascii_uppercase, char_from, chars_of, concat, concat3, decimal, eq_ignore_ascii_case,
    replace_text, text_of, trim_text,
};
use crate::ui_input::{SecretEditor, TextEditor};
use vstd::prelude::*;

verus! {

/// How a line stands out.
#[derive(Debug, Clone, Copy, PartialEq, Eq, Structural)]
pub enum Tone {
    Plain,
    Muted,
    Accent,
    Info,
    Success,
    Warning,
    WarningBold,
    Error,
    Bold,
    Stars,
    Clouds,
    Field,
    FocusedField,
}

/// A line of a screen.
#[derive(Debug)]
pub struct ShownLine {
    pub text: String,
    pub tone: Tone,
}

/// The value of a line.
pub type LineView = (Seq<char>, Tone);

/// The values of lines.
pub open spec fn lines_view(lines: Seq<ShownLine>) -> Seq<LineView> {
    Seq::new(lines.len(), |i: int| (lines[i].text@, lines[i].tone))
}

fn add_line(lines: &mut Vec<ShownLine>, text: String, tone: Tone)
    ensures
        lines_view(final(lines)@) == lines_view(old(lines)@).push((text@, tone)),
{
    let ghost before = lines_view(lines@);
    lines.push(ShownLine { text, tone });
    assert(lines_view(lines@) =~= before.push((text@, tone)));
}

/// The short name of a provider.
pub open spec fn badge(provider_id: Seq<char>) -> Seq<char> {
    if provider_id == FAL_PROVIDER_ID@ {
        "[FAL]"@
    } else if provider_id == OPENROUTER_PROVIDER_ID@ {
        "[OR]"@
    } else {
        crate::text::upper_text("["@ + provider_id + "]"@)
    }
}

/// The short name of a provider.
pub fn provider_badge(provider_id: &ProviderId) -> (s: String)
    ensures
        s@ == badge(provider_id@),
{
    if provider_id.is(FAL_PROVIDER_ID) {
        "[FAL]".to_owned()
    } else if provider_id.is(OPENROUTER_PROVIDER_ID) {
        "[OR]".to_owned()
    } else {
        let bracketed = concat3("[", provider_id.as_str(), "]");
        ascii_uppercase(bracketed.as_str())
    }
}

/// An amount with its currency.
pub open spec fn cost_text(value: Option<Seq<char>>, currency: Option<Seq<char>>) -> Seq<char> {
    match value {
        None => "unavailable"@,
        Some(amount) => {
            let name = match currency {
                Some(c) if c.len() > 0 => c,
                _ => "USD"@,
            };
            if crate::text::lower_text(name) == crate::text::lower_text("USD"@) {
                "$"@ + amount + " USD"@
            } else {
                amount + " "@ + name
            }
        },
    }
}

/// An amount with its currency.
pub fn format_cost_currency(value: &Option<String>, currency: &Option<String>) -> (s: String)
    ensures
        s@ == cost_text(crate::domain::opt_view(*value), crate::domain::opt_view(*currency)),
{
    let amount = match value {
        Some(amount) => amount,
        None => {
            return "unavailable".to_owned();
        },
    };
    let name = match currency {
        Some(c) => if c.as_str().is_empty() {
            "USD"
        } else {
            c.as_str()
        },
        None => "USD",
    };
    if eq_ignore_ascii_case(name, "USD") {
        concat3("$", amount.as_str(), " USD")
    } else {
        concat3(amount.as_str(), " ", name)
    }
}

/// A text in the characters of a terminal without others.
pub open spec fn plain_text(value: Seq<char>) -> Seq<char> {
    let a = crate::text::replaced(value, "×"@, "x"@);
    let b = crate::text::replaced(a, "¢"@, "c"@);
    let c = crate::text::replaced(b, "—"@, "--"@);
    let d = crate::text::replaced(c, "…"@, "..."@);
    crate::text::replaced(d, "•"@, "-"@)
}

/// A text in the characters of a terminal.
pub fn terminal_text(value: &str, unicode: bool) -> (s: String)
    ensures
        s@ == (if unicode {
            value@
        } else {
            plain_text(value@)
        }),
{
    if unicode {
        return value.to_owned();
    }
    proof {
        reveal_strlit("×");
        reveal_strlit("¢");
        reveal_strlit("—");
        reveal_strlit("…");
        reveal_strlit("•");
    }
    let a = replace_text(value, "×", "x");
    let b = replace_text(a.as_str(), "¢", "c");
    let c = replace_text(b.as_str(), "—", "--");
    let d = replace_text(c.as_str(), "…", "...");
    replace_text(d.as_str(), "•", "-")
}

/// A text with the mark of the cursor in it; at its end where the cursor lies behind it.
pub open spec fn with_cursor(value: Seq<char>, at: nat, unicode: bool) -> Seq<char> {
    let n = if at < value.len() {
        at as int
    } else {
        value.len() as int
    };
    crate::ui_input::put_in(
        value,
        n,
        if unicode {
            "▏"@
        } else {
            "|"@
        },
    )
}

/// Puts the mark of the cursor into a text.
pub fn insert_cursor(value: &str, character_index: usize, unicode: bool) -> (s: String)
    ensures
        s@ == with_cursor(value@, character_index as nat, unicode),
{
    let chars = chars_of(value);
    let n: usize = if character_index < chars.len() {
        character_index
    } else {
        chars.len()
    };
    let before = text_of(&chars, 0, n);
    let after = text_of(&chars, n, chars.len());
    assert(before@ =~= value@.take(n as int));
    assert(after@ =~= value@.skip(n as int));
    concat3(
        before.as_str(),
        if unicode {
            "▏"
        } else {
            "|"
        },
        after.as_str(),
    )
}

/// The text of an editor, with the mark of the cursor where it has the focus.
pub fn editor_display(editor: &TextEditor, focused: bool, unicode: bool) -> (s: String)
    ensures
        s@ == (if focused {
            with_cursor(editor@.text, editor@.cursor, unicode)
        } else {
            editor@.text
        }),
{
    if focused {
        insert_cursor(editor.text(), editor.cursor(), unicode)
    } else {
        editor.text().to_owned()
    }
}

/// The text of an editor in one line.
pub open spec fn one_line(text: Seq<char>, unicode: bool) -> Seq<char> {
    if text.len() == 0 {
        "provider default"@
    } else {
        crate::text::replaced(
            text,
            "\n"@,
            if unicode {
                " ↵ "@
            } else {
                " / "@
            },
        )
    }
}

/// The text of an editor in one line, with the mark of the cursor where it has the focus.
pub fn editor_inline(editor: &TextEditor, focused: bool, unicode: bool) -> (s: String)
    ensures
        s@ == (if focused {
            with_cursor(one_line(editor@.text, unicode), editor@.cursor, unicode)
        } else {
            one_line(editor@.text, unicode)
        }),
{
    proof {
        reveal_strlit("\n");
    }
    let value = if editor.is_empty() {
        "provider default".to_owned()
    } else {
        replace_text(
            editor.text(),
            "\n",
            if unicode {
                " ↵ "
            } else {
                " / "
            },
        )
    };
    if focused {
        insert_cursor(value.as_str(), editor.cursor(), unicode)
    } else {
        value
    }
}

/// The first line of a text, without its line break.
pub open spec fn first_line(text: Seq<char>) -> Seq<char> {
    let n = crate::text::before_char(text, '\n') as int;
    if 0 < n < text.len() && text[n - 1] == '\r' {
        text.take(n - 1)
    } else {
        text.take(n)
    }
}

/// The start of a text: its first line, and no more than thirty characters of it.
pub open spec fn summary(text: Seq<char>) -> Seq<char> {
    if crate::text::trimmed(text).len() == 0 {
        "not set"@
    } else {
        let line = first_line(text);
        if line.len() > 30 {
            line.take(30)
        } else {
            line
        }
    }
}

/// The start of an editor's text.
pub fn summarize_editor(editor: &TextEditor) -> (s: String)
    ensures
        s@ == summary(editor@.text),
{
    if editor.trimmed().is_empty() {
        return "not set".to_owned();
    }
    let chars = chars_of(editor.text());
    assert(chars@.skip(0) =~= chars@);
    let end: usize = char_from(&chars, 0, '\n');
    let line: usize = if 0 < end && end < chars.len() && chars[end - 1] == '\r' {
        end - 1
    } else {
        end
    };
    assert(first_line(editor@.text) == editor@.text.take(line as int));
    let shown: usize = if line > 30 {
        30
    } else {
        line
    };
    let s = text_of(&chars, 0, shown);
    assert(s@ =~= summary(editor@.text));
    s
}

/// The chosen one of some texts.
pub open spec fn chosen_text(values: Seq<Seq<char>>, selected: Option<usize>) -> Seq<char> {
    match selected {
        Some(i) if i < values.len() => values[i as int],
        _ => "provider default"@,
    }
}

/// The chosen one of some texts.
pub fn option_label(values: &Vec<String>, selected: Option<usize>) -> (s: String)
    ensures
        s@ == chosen_text(crate::text::texts(values@), selected),
{
    match selected {
        Some(i) => if i < values.len() {
            values[i].clone()
        } else {
            "provider default".to_owned()
        },
        None => "provider default".to_owned(),
    }
}

/// The chosen one of some durations.
pub open spec fn chosen_duration(values: Seq<u32>, selected: Option<usize>) -> Seq<char> {
    match selected {
        Some(i) if i < values.len() => {
            let n = values[i as int];
            if n == 1 {
                "1s"@
            } else if n == 2 {
                "2s"@
            } else if n == 3 {
                "3s"@
            } else if n == 4 {
                "4s"@
            } else if n == 5 {
                "5s"@
            } else if n == 6 {
                "6s"@
            } else if n == 8 {
                "8s"@
            } else if n == 10 {
                "10s"@
            } else {
                "custom duration"@
            }
        },
        _ => "provider default"@,
    }
}

/// The chosen one of some durations.
pub fn option_label_u32(values: &Vec<u32>, selected: Option<usize>) -> (s: &'static str)
    ensures
        s@ == chosen_duration(values@, selected),
{
    let n: u32 = match selected {
        Some(i) => {
            if i >= values.len() {
                return "provider default";
            }
            values[i]
        },
        None => {
            return "provider default";
        },
    };
    if n == 1 {
        "1s"
    } else if n == 2 {
        "2s"
    } else if n == 3 {
        "3s"
    } else if n == 4 {
        "4s"
    } else if n == 5 {
        "5s"
    } else if n == 6 {
        "6s"
    } else if n == 8 {
        "8s"
    } else if n == 10 {
        "10s"
    } else {
        "custom duration"
    }
}

/// A generation in the list of past ones.
#[derive(Debug)]
pub struct HistoryItem {
    pub provider_id: ProviderId,
    pub provider_name: String,
    pub job_id: String,
    pub created: String,
    pub status: String,
    pub model: String,
    pub prompt: String,
    pub cost: Option<String>,
    pub currency: Option<String>,
    pub output_path: Option<String>,
    pub error: Option<String>,
}

/// What is said of a past generation.
pub open spec fn detail_text(item: HistoryItem) -> Seq<char> {
    let head = "Provider: "@ + badge(item.provider_id@) + " "@ + item.provider_name@ + "\nJob: "@
        + item.job_id@ + "\nOutput: "@ + match item.output_path {
        Some(path) => path@,
        None => "Not downloaded"@,
    };
    let failed = match item.error {
        Some(error) => head + ("\nError: "@ + error@),
        None => head,
    };
    if item.prompt@.len() > 0 {
        failed + ("\nPrompt: "@ + item.prompt@)
    } else {
        failed
    }
}

/// What is said of a past generation.
pub fn history_detail(item: &HistoryItem) -> (s: String)
    ensures
        s@ == detail_text(*item),
{
    let short = provider_badge(&item.provider_id);
    let a = concat3("Provider: ", short.as_str(), " ");
    let b = concat3(a.as_str(), item.provider_name.as_str(), "\nJob: ");
    let c = concat3(b.as_str(), item.job_id.as_str(), "\nOutput: ");
    let mut detail = match &item.output_path {
        Some(path) => concat(c.as_str(), path.as_str()),
        None => concat(c.as_str(), "Not downloaded"),
    };
    if let Some(error) = &item.error {
        let more = concat("\nError: ", error.as_str());
        detail = concat(detail.as_str(), more.as_str());
    }
    if !item.prompt.as_str().is_empty() {
        let more = concat("\nPrompt: ", item.prompt.as_str());
        detail = concat(detail.as_str(), more.as_str());
    }
    detail
}

/// The cells of a past generation's row in a table of this width.
pub open spec fn row_cells(item: HistoryItem, width: u16) -> Seq<Seq<char>> {
    let status = badge(item.provider_id@) + " "@ + item.status@;
    if width < 60 {
        seq![status, item.prompt@]
    } else if width < 80 {
        seq![item.created@, status, item.prompt@]
    } else {
        seq![
            item.created@,
            badge(item.provider_id@),
            item.status@,
            item.model@,
            item.prompt@,
            cost_text(crate::domain::opt_view(item.cost), crate::domain::opt_view(item.currency)),
        ]
    }
}

/// The cells of a past generation's row in a table of this width.
pub fn history_row(item: &HistoryItem, width: u16) -> (cells: Vec<String>)
    ensures
        crate::text::texts(cells@) == row_cells(*item, width),
{
    let short = provider_badge(&item.provider_id);
    let mut cells: Vec<String> = Vec::new();
    if width < 80 {
        if width >= 60 {
            cells.push(item.created.clone());
        }
        cells.push(concat3(short.as_str(), " ", item.status.as_str()));
        cells.push(item.prompt.clone());
    } else {
        cells.push(item.created.clone());
        cells.push(short);
        cells.push(item.status.clone());
        cells.push(item.model.clone());
        cells.push(item.prompt.clone());
        cells.push(format_cost_currency(&item.cost, &item.currency));
    }
    assert(crate::text::texts(cells@) =~= row_cells(*item, width));
    cells
}

/// The heads of the columns of such a table.
pub open spec fn header_cells(width: u16) -> Seq<Seq<char>> {
    if width < 60 {
        seq!["Status"@, "Prompt"@]
    } else if width < 80 {
        seq!["Created"@, "Status"@, "Prompt"@]
    } else {
        seq!["Created"@, "Provider"@, "Status"@, "Model"@, "Prompt"@, "Cost"@]
    }
}

/// The heads of the columns of such a table.
pub fn history_header(width: u16) -> (cells: Vec<String>)
    ensures
        crate::text::texts(cells@) == header_cells(width),
{
    let mut cells: Vec<String> = Vec::new();
    if width < 60 {
        cells.push("Status".to_owned());
        cells.push("Prompt".to_owned());
    } else if width < 80 {
        cells.push("Created".to_owned());
        cells.push("Status".to_owned());
        cells.push("Prompt".to_owned());
    } else {
        cells.push("Created".to_owned());
        cells.push("Provider".to_owned());
        cells.push("Status".to_owned());
        cells.push("Model".to_owned());
        cells.push("Prompt".to_owned());
        cells.push("Cost".to_owned());
    }
    assert(crate::text::texts(cells@) =~= header_cells(width));
    cells
}

/// Every row of the table has as many cells as there are columns.
pub proof fn rows_fit_the_header(item: HistoryItem, width: u16)
    ensures
        row_cells(item, width).len() == header_cells(width).len(),
{
}

/// A price as it is shown.
#[derive(Debug)]
pub struct CostView {
    pub amount: Option<String>,
    pub exact: bool,
    pub currency: String,
    pub basis: String,
    /// The advertised prices, written out; empty where there are none.
    pub raw_pricing: String,
}

/// What is said of a price.
pub open spec fn cost_says(cost: CostView, unicode: bool) -> Seq<LineView> {
    let basis = if unicode {
        cost.basis@
    } else {
        plain_text(cost.basis@)
    };
    match cost.amount {
        Some(amount) => seq![
            (
                if cost.exact {
                    "Quoted cost"@
                } else {
                    "Estimated cost"@
                } + ": "@ + cost_text(Some(amount@), Some(cost.currency@)),
                Tone::Accent,
            ),
            (basis, Tone::Muted),
        ],
        None => {
            let lines = seq![
                ("Cost estimate unavailable"@, Tone::WarningBold),
                (basis, Tone::Muted),
            ];
            if cost.raw_pricing@.len() > 0 {
                lines.push(("Advertised pricing: "@ + cost.raw_pricing@, Tone::Muted))
            } else {
                lines
            }
        },
    }
}

/// What is said of a price.
pub fn cost_lines(cost: &CostView, unicode: bool) -> (lines: Vec<ShownLine>)
    ensures
        lines_view(lines@) == cost_says(*cost, unicode),
{
    let mut lines: Vec<ShownLine> = Vec::new();
    assert(lines_view(lines@) =~= Seq::<LineView>::empty());
    match &cost.amount {
        Some(amount) => {
            let label = if cost.exact {
                "Quoted cost"
            } else {
                "Estimated cost"
            };
            let currency = Some(cost.currency.clone());
            let value = Some(amount.clone());
            let price = format_cost_currency(&value, &currency);
            add_line(&mut lines, concat3(label, ": ", price.as_str()), Tone::Accent);
            add_line(&mut lines, terminal_text(cost.basis.as_str(), unicode), Tone::Muted);
        },
        None => {
            add_line(&mut lines, "Cost estimate unavailable".to_owned(), Tone::WarningBold);
            add_line(&mut lines, terminal_text(cost.basis.as_str(), unicode), Tone::Muted);
            if !cost.raw_pricing.as_str().is_empty() {
                add_line(
                    &mut lines,
                    concat("Advertised pricing: ", cost.raw_pricing.as_str()),
                    Tone::Muted,
                );
            }
        },
    }
    assert(lines_view(lines@) =~= cost_says(*cost, unicode));
    lines
}

/// A label with blanks behind it, thirteen characters wide at least.
pub open spec fn padded(label: Seq<char>) -> Seq<char> {
    if label.len() < 13 {
        label + crate::ui_input::repeated(' ', (13 - label.len()) as nat)
    } else {
        label
    }
}

/// The line of a field.
pub open spec fn field_says(label: Seq<char>, value: Seq<char>, focused: bool) -> LineView {
    (
        if focused {
            "> "@
        } else {
            "  "@
        } + padded(label) + value,
        if focused {
            Tone::FocusedField
        } else {
            Tone::Field
        },
    )
}

fn add_field(lines: &mut Vec<ShownLine>, label: &str, value: &str, focused: bool)
    ensures
        lines_view(final(lines)@) == lines_view(old(lines)@).push(
            field_says(label@, value@, focused),
        ),
{
    let mut name = label.to_owned();
    let width: usize = label.unicode_len();
    let mut i: usize = width;
    assert(crate::ui_input::repeated(' ', 0) =~= Seq::<char>::empty());
    assert(label@ + Seq::<char>::empty() =~= label@);
    while i < 13
        invariant
            width == label@.len(),
            width <= i,
            i <= 13 || i == width,
            name@ == label@ + crate::ui_input::repeated(' ', (i - width) as nat),
        decreases 13 - i,
    {
        name.push(' ');
        proof {
            let n = (i - width) as nat;
            assert(crate::ui_input::repeated(' ', n).push(' ') =~= crate::ui_input::repeated(
                ' ',
                n + 1,
            ));
            assert(name@ =~= label@ + crate::ui_input::repeated(' ', n + 1));
        }
        i = i + 1;
    }
    assert(name@ =~= padded(label@));
    let marker = if focused {
        "> "
    } else {
        "  "
    };
    let tone = if focused {
        Tone::FocusedField
    } else {
        Tone::Field
    };
    add_line(lines, concat3(marker, name.as_str(), value), tone);
}

/// What has the focus in the composer.
#[derive(Debug, Clone, Copy, PartialEq, Eq, Structural)]
pub enum ComposeFocus {
    Provider,
    Model,
    Prompt,
    Duration,
    Resolution,
    AspectRatio,
    Size,
    Audio,
    Seed,
    AdvancedToggle,
    FirstFrame,
    LastFrame,
    References,
    AdapterOptions,
    History,
    Generate,
}

/// A model as the composer shows it.
#[derive(Debug)]
pub struct ShownModel {
    pub id: String,
    pub name: String,
    pub description: String,
    pub durations: Vec<u32>,
    pub resolutions: Vec<String>,
    pub aspect_ratios: Vec<String>,
    pub sizes: Vec<String>,
    pub audio: bool,
    pub seed: bool,
    pub first_frame: bool,
    pub last_frame: bool,
}

/// What the composer's panel of settings shows.
pub struct ComposePanel {
    pub provider_id: ProviderId,
    pub provider_name: String,
    pub model: Option<ShownModel>,
    pub catalog_message: String,
    pub catalog_stale: bool,
    pub focus: ComposeFocus,
    pub duration_index: Option<usize>,
    pub resolution_index: Option<usize>,
    pub aspect_index: Option<usize>,
    pub size_index: Option<usize>,
    pub audio: bool,
    pub seed: TextEditor,
    pub advanced: bool,
    pub first_frame: TextEditor,
    pub last_frame: TextEditor,
    pub references: TextEditor,
    pub adapter_options: TextEditor,
    pub estimate: CostView,
    pub unicode: bool,
    /// Whether the screen is too short for more than the essentials.
    pub short: bool,
}

/// An optional line.
pub open spec fn only_if(shown: bool, line: LineView) -> Seq<LineView> {
    if shown {
        seq![line]
    } else {
        Seq::empty()
    }
}

/// The text of an editor in one line, with the mark of the cursor where it has the focus.
pub open spec fn inline_says(
    editor: crate::ui_input::EditorView,
    focused: bool,
    unicode: bool,
) -> Seq<char> {
    if focused {
        with_cursor(one_line(editor.text, unicode), editor.cursor, unicode)
    } else {
        one_line(editor.text, unicode)
    }
}

/// The settings that a model has.
pub open spec fn model_says(panel: ComposePanel, model: ShownModel) -> Seq<LineView> {
    let focus = panel.focus;
    only_if(
        model.durations@.len() > 0,
        field_says(
            "Duration"@,
            chosen_duration(model.durations@, panel.duration_index),
            focus == ComposeFocus::Duration,
        ),
    ) + only_if(
        model.resolutions@.len() > 0,
        field_says(
            "Resolution"@,
            chosen_text(crate::text::texts(model.resolutions@), panel.resolution_index),
            focus == ComposeFocus::Resolution,
        ),
    ) + only_if(
        model.aspect_ratios@.len() > 0,
        field_says(
            "Aspect"@,
            chosen_text(crate::text::texts(model.aspect_ratios@), panel.aspect_index),
            focus == ComposeFocus::AspectRatio,
        ),
    ) + only_if(
        model.sizes@.len() > 0,
        field_says(
            "Exact size"@,
            chosen_text(crate::text::texts(model.sizes@), panel.size_index),
            focus == ComposeFocus::Size,
        ),
    ) + only_if(
        model.audio,
        field_says(
            "Audio"@,
            if panel.audio {
                "[x] on"@
            } else {
                "[ ] off"@
            },
            focus == ComposeFocus::Audio,
        ),
    ) + only_if(
        model.seed,
        field_says(
            "Seed"@,
            inline_says(panel.seed@, focus == ComposeFocus::Seed, panel.unicode),
            focus == ComposeFocus::Seed,
        ),
    )
}

/// The advanced settings.
pub open spec fn advanced_says(panel: ComposePanel) -> Seq<LineView> {
    let focus = panel.focus;
    only_if(
        panel.model matches Some(model) && model.first_frame,
        field_says(
            "First frame"@,
            inline_says(panel.first_frame@, focus == ComposeFocus::FirstFrame, panel.unicode),
            focus == ComposeFocus::FirstFrame,
        ),
    ) + only_if(
        panel.model matches Some(model) && model.last_frame,
        field_says(
            "Last frame"@,
            inline_says(panel.last_frame@, focus == ComposeFocus::LastFrame, panel.unicode),
            focus == ComposeFocus::LastFrame,
        ),
    ) + seq![
        field_says(
            "References"@,
            summary(panel.references@.text),
            focus == ComposeFocus::References,
        ),
        field_says(
            "Advanced options (JSON)"@,
            summary(panel.adapter_options@.text),
            focus == ComposeFocus::AdapterOptions,
        ),
    ]
}

/// The provider, the model and the state of the catalog.
pub open spec fn head_says(panel: ComposePanel) -> Seq<LineView> {
    let focus = panel.focus;
    seq![
        field_says(
            "Provider"@,
            badge(panel.provider_id@) + " "@ + panel.provider_name@,
            focus == ComposeFocus::Provider,
        ),
        field_says(
            "Model"@,
            match panel.model {
                Some(model) => model.name@,
                None => "Loading..."@,
            },
            focus == ComposeFocus::Model,
        ),
        (
            panel.catalog_message@,
            if panel.catalog_stale {
                Tone::Warning
            } else {
                Tone::Info
            },
        ),
    ]
}

/// The switch for the advanced settings.
pub open spec fn toggle_says(panel: ComposePanel) -> Seq<LineView> {
    seq![
        field_says(
            "Advanced"@,
            if panel.advanced {
                "[-] hide"@
            } else {
                "[+] show"@
            },
            panel.focus == ComposeFocus::AdvancedToggle,
        ),
    ]
}

/// What the model is about.
pub open spec fn about_says(panel: ComposePanel) -> Seq<LineView> {
    match panel.model {
        Some(model) => if model.description@.len() > 0 && !panel.short {
            seq![(Seq::<char>::empty(), Tone::Plain), (model.description@, Tone::Muted)]
        } else {
            Seq::empty()
        },
        None => Seq::empty(),
    }
}

/// What the panel of settings says.
pub open spec fn settings_says(panel: ComposePanel) -> Seq<LineView> {
    head_says(panel) + match panel.model {
        Some(model) => model_says(panel, model),
        None => Seq::empty(),
    } + toggle_says(panel) + if panel.advanced {
        advanced_says(panel)
    } else {
        Seq::empty()
    } + seq![(Seq::<char>::empty(), Tone::Plain)] + cost_says(panel.estimate, panel.unicode)
        + about_says(panel)
}

proof fn added_later(start: Seq<LineView>, first: Seq<LineView>, second: Seq<LineView>)
    ensures
        (start + first) + second == start + (first + second),
{
    assert((start + first) + second =~= start + (first + second));
}

fn add_field_if(
    lines: &mut Vec<ShownLine>,
    shown: bool,
    label: &str,
    value: &str,
    focused: bool,
)
    ensures
        lines_view(final(lines)@) == lines_view(old(lines)@) + only_if(
            shown,
            field_says(label@, value@, focused),
        ),
{
    let ghost start = lines_view(lines@);
    if shown {
        add_field(lines, label, value, focused);
    }
    assert(lines_view(lines@) =~= start + only_if(shown, field_says(label@, value@, focused)));
}

fn model_lines(panel: &ComposePanel, model: &ShownModel, lines: &mut Vec<ShownLine>)
    ensures
        lines_view(final(lines)@) == lines_view(old(lines)@) + model_says(*panel, *model),
{
    let ghost start = lines_view(lines@);
    let focus = panel.focus;
    let duration = option_label_u32(&model.durations, panel.duration_index);
    let here = matches!(focus, ComposeFocus::Duration);
    add_field_if(lines, model.durations.len() > 0, "Duration", duration, here);
    let ghost a = only_if(model.durations@.len() > 0, field_says("Duration"@, duration@, here));
    let resolution = option_label(&model.resolutions, panel.resolution_index);
    let here = matches!(focus, ComposeFocus::Resolution);
    add_field_if(lines, model.resolutions.len() > 0, "Resolution", resolution.as_str(), here);
    let ghost b = only_if(
        model.resolutions@.len() > 0,
        field_says("Resolution"@, resolution@, here),
    );
    let aspect = option_label(&model.aspect_ratios, panel.aspect_index);
    let here = matches!(focus, ComposeFocus::AspectRatio);
    add_field_if(lines, model.aspect_ratios.len() > 0, "Aspect", aspect.as_str(), here);
    let ghost c = only_if(model.aspect_ratios@.len() > 0, field_says("Aspect"@, aspect@, here));
    let size = option_label(&model.sizes, panel.size_index);
    let here = matches!(focus, ComposeFocus::Size);
    add_field_if(lines, model.sizes.len() > 0, "Exact size", size.as_str(), here);
    let ghost d = only_if(model.sizes@.len() > 0, field_says("Exact size"@, size@, here));
    let audio = if panel.audio {
        "[x] on"
    } else {
        "[ ] off"
    };
    let here = matches!(focus, ComposeFocus::Audio);
    add_field_if(lines, model.audio, "Audio", audio, here);
    let ghost e = only_if(model.audio, field_says("Audio"@, audio@, here));
    let here = matches!(focus, ComposeFocus::Seed);
    let seed = editor_inline(&panel.seed, here, panel.unicode);
    add_field_if(lines, model.seed, "Seed", seed.as_str(), here);
    let ghost f = only_if(model.seed, field_says("Seed"@, seed@, here));
    proof {
        added_later(start, a, b);
        added_later(start, a + b, c);
        added_later(start, a + b + c, d);
        added_later(start, a + b + c + d, e);
        added_later(start, a + b + c + d + e, f);
    }
}

fn advanced_lines(panel: &ComposePanel, lines: &mut Vec<ShownLine>)
    ensures
        lines_view(final(lines)@) == lines_view(old(lines)@) + advanced_says(*panel),
{
    let ghost start = lines_view(lines@);
    let focus = panel.focus;
    let (first, last) = match &panel.model {
        Some(model) => (model.first_frame, model.last_frame),
        None => (false, false),
    };
    let here = matches!(focus, ComposeFocus::FirstFrame);
    let value = editor_inline(&panel.first_frame, here, panel.unicode);
    add_field_if(lines, first, "First frame", value.as_str(), here);
    let ghost a = only_if(first, field_says("First frame"@, value@, here));
    let here = matches!(focus, ComposeFocus::LastFrame);
    let value = editor_inline(&panel.last_frame, here, panel.unicode);
    add_field_if(lines, last, "Last frame", value.as_str(), here);
    let ghost b = only_if(last, field_says("Last frame"@, value@, here));
    let references = summarize_editor(&panel.references);
    let here = matches!(focus, ComposeFocus::References);
    let ghost c = field_says("References"@, references@, here);
    let ghost before = lines_view(lines@);
    add_field(lines, "References", references.as_str(), here);
    let options = summarize_editor(&panel.adapter_options);
    let here = matches!(focus, ComposeFocus::AdapterOptions);
    let ghost d = field_says("Advanced options (JSON)"@, options@, here);
    add_field(lines, "Advanced options (JSON)", options.as_str(), here);
    proof {
        assert(before.push(c).push(d) =~= before + seq![c, d]);
        added_later(start, a, b);
        added_later(start, a + b, seq![c, d]);
    }
}

fn add_lines(lines: &mut Vec<ShownLine>, more: Vec<ShownLine>)
    ensures
        lines_view(final(lines)@) == lines_view(old(lines)@) + lines_view(more@),
{
    let ghost start = lines_view(lines@);
    let ghost added = lines_view(more@);
    let mut rest = more;
    lines.append(&mut rest);
    assert(lines_view(lines@) =~= start + added);
}

fn blank_line(lines: &mut Vec<ShownLine>)
    ensures
        lines_view(final(lines)@) == lines_view(old(lines)@).push((Seq::empty(), Tone::Plain)),
{
    let nothing = String::new();
    assert(nothing@ =~= Seq::<char>::empty());
    add_line(lines, nothing, Tone::Plain);
}

fn head_lines(panel: &ComposePanel) -> (lines: Vec<ShownLine>)
    ensures
        lines_view(lines@) == head_says(*panel),
{
    let focus = panel.focus;
    let mut lines: Vec<ShownLine> = Vec::new();
    assert(lines_view(lines@) =~= Seq::<LineView>::empty());
    let short_name = provider_badge(&panel.provider_id);
    let provider = concat3(short_name.as_str(), " ", panel.provider_name.as_str());
    add_field(&mut lines, "Provider", provider.as_str(), matches!(focus, ComposeFocus::Provider));
    let model_name = match &panel.model {
        Some(model) => model.name.as_str(),
        None => "Loading...",
    };
    add_field(&mut lines, "Model", model_name, matches!(focus, ComposeFocus::Model));
    add_line(
        &mut lines,
        panel.catalog_message.clone(),
        if panel.catalog_stale {
            Tone::Warning
        } else {
            Tone::Info
        },
    );
    assert(lines_view(lines@) =~= head_says(*panel));
    lines
}

fn about_lines(panel: &ComposePanel) -> (lines: Vec<ShownLine>)
    ensures
        lines_view(lines@) == about_says(*panel),
{
    let mut lines: Vec<ShownLine> = Vec::new();
    assert(lines_view(lines@) =~= Seq::<LineView>::empty());
    if let Some(model) = &panel.model {
        if !model.description.as_str().is_empty() && !panel.short {
            blank_line(&mut lines);
            add_line(&mut lines, model.description.clone(), Tone::Muted);
        }
    }
    assert(lines_view(lines@) =~= about_says(*panel));
    lines
}

fn toggle_lines(panel: &ComposePanel) -> (lines: Vec<ShownLine>)
    ensures
        lines_view(lines@) == toggle_says(*panel),
{
    let mut lines: Vec<ShownLine> = Vec::new();
    assert(lines_view(lines@) =~= Seq::<LineView>::empty());
    add_field(
        &mut lines,
        "Advanced",
        if panel.advanced {
            "[-] hide"
        } else {
            "[+] show"
        },
        matches!(panel.focus, ComposeFocus::AdvancedToggle),
    );
    assert(lines_view(lines@) =~= toggle_says(*panel));
    lines
}

/// What the panel of settings says.
pub fn settings_lines(panel: &ComposePanel) -> (lines: Vec<ShownLine>)
    ensures
        lines_view(lines@) == settings_says(*panel),
{
    let mut lines = head_lines(panel);
    let ghost head = lines_view(lines@);
    match &panel.model {
        Some(model) => {
            model_lines(panel, model, &mut lines);
        },
        None => {
            assert(head + Seq::<LineView>::empty() =~= head);
        },
    }
    let toggle = toggle_lines(panel);
    add_lines(&mut lines, toggle);
    let ghost shown = lines_view(lines@);
    if panel.advanced {
        advanced_lines(panel, &mut lines);
    } else {
        assert(shown + Seq::<LineView>::empty() =~= shown);
    }
    let ghost more = lines_view(lines@);
    blank_line(&mut lines);
    assert(lines_view(lines@) =~= more + seq![(Seq::<char>::empty(), Tone::Plain)]);
    let price = cost_lines(&panel.estimate, panel.unicode);
    add_lines(&mut lines, price);
    let about = about_lines(panel);
    add_lines(&mut lines, about);
    lines
}

/// The screens.
#[derive(Debug, Clone, Copy, PartialEq, Eq, Structural)]
pub enum Route {
    Onboarding,
    Compose,
    Progress,
    Complete,
    History,
    Providers,
}

/// The dialogs.
#[derive(Debug, Clone, Copy, PartialEq, Eq, Structural)]
pub enum ModalKind {
    Confirmation,
    PauseMonitoring,
    ImportJob,
    Help,
}

/// What the footer says: the keys of the open dialog or of the screen, and on a narrow terminal
/// always the most important ones of the screen.
pub open spec fn footer_says(route: Route, modal: Option<ModalKind>, width: u16) -> Seq<char> {
    if width < 70 {
        match route {
            Route::Compose => " Tab focus  ^Enter review  ^H history "@,
            Route::Progress => " Q pause  R retry "@,
            Route::Complete => " O open  N new  R reuse  Q quit "@,
            Route::History => " Up/Down  Enter open  I import "@,
            Route::Onboarding => " Enter connect  ^P providers  ^Q quit "@,
            Route::Providers => " Up/Down  Enter key  U use  F forget "@,
        }
    } else {
        match modal {
            Some(ModalKind::Confirmation) => " Enter generate   Esc cancel "@,
            Some(ModalKind::PauseMonitoring) =>
                " Left/Right choose   Enter confirm   Esc keep watching "@,
            Some(ModalKind::ImportJob) => " Enter import   Esc cancel "@,
            Some(ModalKind::Help) => " Esc close help "@,
            None => match route {
                Route::Onboarding => " Enter connect   Ctrl+P providers   Ctrl+Q quit "@,
                Route::Compose =>
                    " Tab focus   Ctrl+Enter review   Ctrl+H history   Ctrl+P providers   Ctrl+Q quit "@,
                Route::Progress => " Esc/Q pause safely   R retry monitoring "@,
                Route::Complete =>
                    " O/Enter open   N new   R reuse   H history   Ctrl+P providers   Q quit "@,
                Route::History =>
                    " Up/Down select   Enter resume/open   I import   Ctrl+P providers   Esc back "@,
                Route::Providers =>
                    " Up/Down provider   Enter edit key   U use   F forget   Esc back "@,
            },
        }
    }
}

/// What the footer says.
pub fn footer_text(route: Route, modal: Option<ModalKind>, width: u16) -> (s: &'static str)
    ensures
        s@ == footer_says(route, modal, width),
{
    if width < 70 {
        return match route {
            Route::Compose => " Tab focus  ^Enter review  ^H history ",
            Route::Progress => " Q pause  R retry ",
            Route::Complete => " O open  N new  R reuse  Q quit ",
            Route::History => " Up/Down  Enter open  I import ",
            Route::Onboarding => " Enter connect  ^P providers  ^Q quit ",
            Route::Providers => " Up/Down  Enter key  U use  F forget ",
        };
    }
    match modal {
        Some(ModalKind::Confirmation) => " Enter generate   Esc cancel ",
        Some(ModalKind::PauseMonitoring) => " Left/Right choose   Enter confirm   Esc keep watching ",
        Some(ModalKind::ImportJob) => " Enter import   Esc cancel ",
        Some(ModalKind::Help) => " Esc close help ",
        None => match route {
            Route::Onboarding => " Enter connect   Ctrl+P providers   Ctrl+Q quit ",
            Route::Compose =>
                " Tab focus   Ctrl+Enter review   Ctrl+H history   Ctrl+P providers   Ctrl+Q quit ",
            Route::Progress => " Esc/Q pause safely   R retry monitoring ",
            Route::Complete =>
                " O/Enter open   N new   R reuse   H history   Ctrl+P providers   Q quit ",
            Route::History =>
                " Up/Down select   Enter resume/open   I import   Ctrl+P providers   Esc back ",
            Route::Providers => " Up/Down provider   Enter edit key   U use   F forget   Esc back ",
        },
    }
}

/// What a terminal that is too small shows.
pub open spec fn too_small_says(
    route: Route,
    job_id: Option<Seq<char>>,
    status: Seq<char>,
) -> Seq<LineView> {
    let head = seq![
        ("Terminal too small"@, Tone::WarningBold),
        ("Resize to at least 40 x 14."@, Tone::Plain),
    ];
    let job = if route == Route::Progress {
        seq![
            (
                "Job: "@ + match job_id {
                    Some(id) => id,
                    None => "waiting for ID"@,
                },
                Tone::Plain,
            ),
            ("Status: "@ + status, Tone::Plain),
        ]
    } else {
        Seq::empty()
    };
    head + job + seq![("Esc/Q: safe exit"@, Tone::Muted)]
}

/// What a terminal that is too small shows.
pub fn too_small_lines(route: Route, job_id: &Option<String>, status: &str) -> (lines: Vec<
    ShownLine,
>)
    ensures
        lines_view(lines@) == too_small_says(route, crate::domain::opt_view(*job_id), status@),
{
    let mut lines: Vec<ShownLine> = Vec::new();
    assert(lines_view(lines@) =~= Seq::<LineView>::empty());
    add_line(&mut lines, "Terminal too small".to_owned(), Tone::WarningBold);
    add_line(&mut lines, "Resize to at least 40 x 14.".to_owned(), Tone::Plain);
    if matches!(route, Route::Progress) {
        let id = match job_id {
            Some(id) => id.as_str(),
            None => "waiting for ID",
        };
        add_line(&mut lines, concat("Job: ", id), Tone::Plain);
        add_line(&mut lines, concat("Status: ", status), Tone::Plain);
    }
    add_line(&mut lines, "Esc/Q: safe exit".to_owned(), Tone::Muted);
    assert(lines_view(lines@) =~= too_small_says(
        route,
        crate::domain::opt_view(*job_id),
        status@,
    ));
    lines
}

/// A number with two digits at least.
pub open spec fn two_digits(n: nat) -> Seq<char> {
    if n < 10 {
        "0"@ + crate::text::numeral(n)
    } else {
        crate::text::numeral(n)
    }
}

/// How long a generation has taken, and when it is looked at again.
pub open spec fn timing_says(elapsed: u64, countdown: Option<u64>, unicode: bool) -> Seq<char> {
    let passed = "Elapsed "@ + crate::text::numeral((elapsed / 60) as nat) + ":"@ + two_digits(
        (elapsed % 60) as nat,
    );
    match countdown {
        Some(seconds) => passed + ("  "@ + if unicode {
            "•"@
        } else {
            "-"@
        } + "  checking again in "@ + crate::text::numeral(seconds as nat) + "s"@),
        None => passed,
    }
}

/// How long a generation has taken, and when it is looked at again.
pub fn timing_text(elapsed: u64, countdown: Option<u64>, unicode: bool) -> (s: String)
    ensures
        s@ == timing_says(elapsed, countdown, unicode),
{
    let minutes = decimal(elapsed / 60);
    let rest: u64 = elapsed % 60;
    let digits = decimal(rest);
    let seconds = if rest < 10 {
        concat("0", digits.as_str())
    } else {
        digits
    };
    let head = concat3("Elapsed ", minutes.as_str(), ":");
    let passed = concat(head.as_str(), seconds.as_str());
    match countdown {
        Some(n) => {
            let wait = decimal(n);
            let dot = if unicode {
                "•"
            } else {
                "-"
            };
            let start = concat3("  ", dot, "  checking again in ");
            let more = concat3(start.as_str(), wait.as_str(), "s");
            concat(passed.as_str(), more.as_str())
        },
        None => passed,
    }
}

/// A running generation as its screen shows it.
#[derive(Debug)]
pub struct ProgressPanel {
    pub status: String,
    pub detail: String,
    pub elapsed: u64,
    pub countdown: Option<u64>,
    pub job_id: Option<String>,
    /// How much of the video has arrived, written out.
    pub downloaded: Option<String>,
    pub error: Option<String>,
    pub unicode: bool,
}

/// What the screen of a running generation says below its scene.
pub open spec fn progress_says(panel: ProgressPanel) -> Seq<LineView> {
    let head = seq![
        (panel.status@ + "  "@ + panel.detail@, Tone::Accent),
        (timing_says(panel.elapsed, panel.countdown, panel.unicode), Tone::Muted),
        (
            match panel.job_id {
                Some(id) => "Job "@ + id@,
                None => "Waiting for a job ID..."@,
            },
            Tone::Muted,
        ),
    ];
    let arrived = match panel.downloaded {
        Some(text) => seq![(text@, Tone::Success)],
        None => Seq::empty(),
    };
    let failed = match panel.error {
        Some(error) => seq![
            (Seq::<char>::empty(), Tone::Plain),
            ("Error: "@ + error@, Tone::Error),
        ] + only_if(
            panel.job_id is Some,
            (
                "Press R to retry monitoring; no new generation will be submitted."@,
                Tone::Warning,
            ),
        ),
        None => Seq::empty(),
    };
    head + arrived + failed
}

/// What the screen of a running generation says below its scene.
pub fn progress_lines(panel: &ProgressPanel) -> (lines: Vec<ShownLine>)
    ensures
        lines_view(lines@) == progress_says(*panel),
{
    let mut lines: Vec<ShownLine> = Vec::new();
    assert(lines_view(lines@) =~= Seq::<LineView>::empty());
    add_line(
        &mut lines,
        concat3(panel.status.as_str(), "  ", panel.detail.as_str()),
        Tone::Accent,
    );
    add_line(
        &mut lines,
        timing_text(panel.elapsed, panel.countdown, panel.unicode),
        Tone::Muted,
    );
    let job = match &panel.job_id {
        Some(id) => concat("Job ", id.as_str()),
        None => "Waiting for a job ID...".to_owned(),
    };
    add_line(&mut lines, job, Tone::Muted);
    if let Some(text) = &panel.downloaded {
        add_line(&mut lines, text.clone(), Tone::Success);
    }
    if let Some(error) = &panel.error {
        blank_line(&mut lines);
        add_line(&mut lines, concat("Error: ", error.as_str()), Tone::Error);
        if panel.job_id.is_some() {
            add_line(
                &mut lines,
                "Press R to retry monitoring; no new generation will be submitted.".to_owned(),
                Tone::Warning,
            );
        }
    }
    assert(lines_view(lines@) =~= progress_says(*panel));
    lines
}

/// What the screen of a finished generation says of it.
pub open spec fn complete_says(
    provider_id: Seq<char>,
    job_id: Seq<char>,
    path: Seq<char>,
    cost: Option<Seq<char>>,
    currency: Option<Seq<char>>,
    unicode: bool,
) -> Seq<LineView> {
    let blank = (Seq::<char>::empty(), Tone::Plain);
    seq![
        (
            if unicode {
                "🎬"@
            } else {
                "[film]"@
            } + "  Your video is ready!"@,
            Tone::Accent,
        ),
        blank,
        (path, Tone::Success),
        blank,
        (
            badge(provider_id) + "  Job "@ + job_id + "  "@ + if unicode {
                "•"@
            } else {
                "-"@
            } + "  Final cost "@ + cost_text(cost, currency),
            Tone::Muted,
        ),
        blank,
        ("Press O or Enter to open it in your default video player."@, Tone::Plain),
    ]
}

/// What the screen of a finished generation says of it.
pub fn complete_lines(
    provider_id: &ProviderId,
    job_id: &str,
    path: &str,
    cost: &Option<String>,
    currency: &Option<String>,
    unicode: bool,
) -> (lines: Vec<ShownLine>)
    ensures
        lines_view(lines@) == complete_says(
            provider_id@,
            job_id@,
            path@,
            crate::domain::opt_view(*cost),
            crate::domain::opt_view(*currency),
            unicode,
        ),
{
    let mut lines: Vec<ShownLine> = Vec::new();
    assert(lines_view(lines@) =~= Seq::<LineView>::empty());
    let icon = if unicode {
        "🎬"
    } else {
        "[film]"
    };
    add_line(&mut lines, concat(icon, "  Your video is ready!"), Tone::Accent);
    blank_line(&mut lines);
    add_line(&mut lines, path.to_owned(), Tone::Success);
    blank_line(&mut lines);
    let short = provider_badge(provider_id);
    let price = format_cost_currency(cost, currency);
    let dot = if unicode {
        "•"
    } else {
        "-"
    };
    let a = concat3(short.as_str(), "  Job ", job_id);
    let b = concat3(a.as_str(), "  ", dot);
    add_line(&mut lines, concat3(b.as_str(), "  Final cost ", price.as_str()), Tone::Muted);
    blank_line(&mut lines);
    add_line(
        &mut lines,
        "Press O or Enter to open it in your default video player.".to_owned(),
        Tone::Plain,
    );
    assert(lines_view(lines@) =~= complete_says(
        provider_id@,
        job_id@,
        path@,
        crate::domain::opt_view(*cost),
        crate::domain::opt_view(*currency),
        unicode,
    ));
    lines
}

/// What the dialog before a paid generation says.
pub open spec fn confirmation_says(
    request: VideoRequest,
    provider_name: Seq<char>,
    estimate: CostView,
    unicode: bool,
) -> Seq<LineView> {
    let blank = (Seq::<char>::empty(), Tone::Plain);
    let head = seq![
        (
            "This submits exactly one paid generation request to "@ + provider_name + "."@,
            Tone::WarningBold,
        ),
        (
            "The POST is never automatically retried after an ambiguous result."@,
            Tone::Plain,
        ),
        blank,
        ("Provider: "@ + badge(request.provider_id@) + " "@ + provider_name, Tone::Plain),
        ("Model: "@ + request.model@, Tone::Plain),
        ("Prompt: "@ + request.prompt@, Tone::Plain),
        (
            "Duration: "@ + match request.duration {
                Some(n) => crate::text::numeral(n as nat) + "s"@,
                None => "provider default"@,
            },
            Tone::Plain,
        ),
        (
            "Resolution: "@ + match (request.size, request.resolution) {
                (Some(size), _) => size@,
                (None, Some(resolution)) => resolution@,
                _ => "provider default"@,
            },
            Tone::Plain,
        ),
        blank,
    ];
    head + cost_says(estimate, unicode) + only_if(
        estimate.amount is None,
        ("Confirm only if you accept an unknown charge."@, Tone::Warning),
    ) + seq![blank]
}

/// What the dialog before a paid generation says.
pub fn confirmation_lines(
    request: &VideoRequest,
    provider_name: &str,
    estimate: &CostView,
    unicode: bool,
) -> (lines: Vec<ShownLine>)
    ensures
        lines_view(lines@) == confirmation_says(*request, provider_name@, *estimate, unicode),
{
    let mut lines: Vec<ShownLine> = Vec::new();
    assert(lines_view(lines@) =~= Seq::<LineView>::empty());
    add_line(
        &mut lines,
        concat3("This submits exactly one paid generation request to ", provider_name, "."),
        Tone::WarningBold,
    );
    add_line(
        &mut lines,
        "The POST is never automatically retried after an ambiguous result.".to_owned(),
        Tone::Plain,
    );
    blank_line(&mut lines);
    let short = provider_badge(&request.provider_id);
    let named = concat3("Provider: ", short.as_str(), " ");
    add_line(&mut lines, concat(named.as_str(), provider_name), Tone::Plain);
    add_line(&mut lines, concat("Model: ", request.model.as_str()), Tone::Plain);
    add_line(&mut lines, concat("Prompt: ", request.prompt.as_str()), Tone::Plain);
    let duration = match request.duration {
        Some(n) => {
            let number = decimal(n as u64);
            concat(number.as_str(), "s")
        },
        None => "provider default".to_owned(),
    };
    add_line(&mut lines, concat("Duration: ", duration.as_str()), Tone::Plain);
    let resolution = match &request.size {
        Some(size) => size.as_str(),
        None => match &request.resolution {
            Some(resolution) => resolution.as_str(),
            None => "provider default",
        },
    };
    add_line(&mut lines, concat("Resolution: ", resolution), Tone::Plain);
    blank_line(&mut lines);
    let price = cost_lines(estimate, unicode);
    add_lines(&mut lines, price);
    if estimate.amount.is_none() {
        add_line(
            &mut lines,
            "Confirm only if you accept an unknown charge.".to_owned(),
            Tone::Warning,
        );
    }
    blank_line(&mut lines);
    assert(lines_view(lines@) =~= confirmation_says(
        *request,
        provider_name@,
        *estimate,
        unicode,
    ));
    lines
}

/// What an editor for an API key shows: never the key.
pub fn masked_key(key: &SecretEditor, with_mark: bool, unicode: bool) -> (s: String)
    ensures
        ({
            let mask = crate::ui_input::repeated(
                if unicode {
                    '•'
                } else {
                    '*'
                },
                key@.secret.len(),
            );
            s@ == (if with_mark {
                with_cursor(mask, key@.cursor, unicode)
            } else {
                mask
            })
        }),
{
    let mask = key.masked_for_terminal(unicode);
    if with_mark {
        insert_cursor(mask.as_str(), key.cursor(), unicode)
    } else {
        mask
    }
}

/// What the screen of providers says of the selected one's key.
pub fn key_status(has_key: Option<bool>) -> (s: &'static str)
    ensures
        s@ == match has_key {
            None => "Unavailable"@,
            Some(true) => "******** (masked)"@,
            Some(false) => "Not connected"@,
        },
{
    match has_key {
        None => "Unavailable",
        Some(has) => if has {
            "******** (masked)"
        } else {
            "Not connected"
        },
    }
}

/// A rectangle of a screen.
#[derive(Debug, Clone, Copy, PartialEq, Eq, Structural)]
pub struct Area {
    pub x: u16,
    pub y: u16,
    pub width: u16,
    pub height: u16,
}

/// Where something begins that is centred in a stretch.
pub open spec fn middle(start: u16, length: u16, inner: u16) -> int {
    let at = start + (length - inner) / 2;
    if at > u16::MAX {
        u16::MAX as int
    } else {
        at
    }
}

fn middle_of(start: u16, length: u16, inner: u16) -> (at: u16)
    requires
        inner <= length,
    ensures
        at == middle(start, length, inner),
{
    let gap: u16 = (length - inner) / 2;
    if gap > u16::MAX - start {
        u16::MAX
    } else {
        start + gap
    }
}

/// A rectangle of this size, or of what there is, in the middle of another.
pub fn centered(area: Area, width: u16, height: u16) -> (r: Area)
    ensures
        r.width == (if width < area.width {
            width
        } else {
            area.width
        }),
        r.height == (if height < area.height {
            height
        } else {
            area.height
        }),
        r.x == middle(area.x, area.width, r.width),
        r.y == middle(area.y, area.height, r.height),
{
    let w: u16 = if width < area.width {
        width
    } else {
        area.width
    };
    let h: u16 = if height < area.height {
        height
    } else {
        area.height
    };
    Area {
        x: middle_of(area.x, area.width, w),
        y: middle_of(area.y, area.height, h),
        width: w,
        height: h,
    }
}

/// What is centred lies within the rectangle along either axis, wherever that one ends before the
/// largest coordinate.
pub proof fn centered_lies_within(inner: u16, length: u16, start: u16)
    requires
        inner <= length,
        start + length <= u16::MAX,
    ensures
        start <= middle(start, length, inner),
        middle(start, length, inner) + inner <= start + length,
{
}

/// The stars of the scene.
pub open spec fn star_signs(ascii: bool) -> Seq<char> {
    if ascii {
        seq!['*', '.', '+', '.', '*', '.']
    } else {
        seq!['✦', '·', '⋆', '✧', '·', '✶']
    }
}

/// Where a sign that moves with the scene stands.
pub open spec fn drift(index: int, stride: int, slowness: int, phase: int, width: int) -> int {
    (index * stride + phase / (index + slowness)) % width
}

/// A sky of blanks with its first `n` stars.
pub open spec fn sky_with(n: nat, width: nat, phase: nat, ascii: bool) -> Seq<char>
    decreases n,
{
    if n == 0 {
        crate::ui_input::repeated(' ', width)
    } else {
        let i = n - 1;
        sky_with(i as nat, width, phase, ascii).update(
            drift(i, 11, 1, phase as int, width as int),
            star_signs(ascii)[((phase + i) % 6) as int],
        )
    }
}

/// A line of blanks with its first `n` clouds.
pub open spec fn clouds_with(n: nat, width: nat, phase: nat, ascii: bool) -> Seq<char>
    decreases n,
{
    if n == 0 {
        crate::ui_input::repeated(' ', width)
    } else {
        let i = n - 1;
        clouds_with(i as nat, width, phase, ascii).update(
            drift(i, 17, 2, phase as int, width as int),
            if ascii {
                '~'
            } else {
                '☁'
            },
        )
    }
}

/// How wide the scene is: between thirty-four and seventy-two characters.
pub open spec fn scene_width(requested: u16) -> nat {
    if requested < 34 {
        34
    } else if requested > 72 {
        72
    } else {
        requested as nat
    }
}

/// The reel of the scene's projector.
pub open spec fn reel_sign(phase: nat, ascii: bool) -> Seq<char> {
    let n = phase % 4;
    if ascii {
        if n == 0 || n == 2 {
            "o"@
        } else {
            "O"@
        }
    } else if n == 0 {
        "◜"@
    } else if n == 1 {
        "◝"@
    } else if n == 2 {
        "◞"@
    } else {
        "◟"@
    }
}

/// The scene above a running generation.
pub open spec fn scene_says(requested: u16, phase: u32, reduced_motion: bool, unicode: bool) -> Seq<
    LineView,
> {
    let width = scene_width(requested);
    let at: nat = if reduced_motion {
        0
    } else {
        phase as nat
    };
    let ascii = !unicode;
    let reel = reel_sign(at, ascii);
    seq![
        (sky_with(6, width, at, ascii), Tone::Stars),
        (clouds_with(4, width, at, ascii), Tone::Clouds),
        (
            if ascii {
                reel + "O\\  +-------------+  /O"@ + reel
            } else {
                reel + "◉╲  ┌─────────────┐  ╱◉"@ + reel
            },
            Tone::Bold,
        ),
        (
            if ascii {
                "\\      tiny cloud cinema      /"@
            } else {
                "╲      tiny cloud cinema      ╱"@
            },
            Tone::Clouds,
        ),
        (
            if ascii {
                "--------------------------------"@
            } else {
                "────────────────────────────────"@
            },
            Tone::Stars,
        ),
    ]
}

fn blanks(width: usize) -> (v: Vec<char>)
    ensures
        v@ == crate::ui_input::repeated(' ', width as nat),
{
    let mut v: Vec<char> = Vec::new();
    let mut i: usize = 0;
    assert(v@ =~= crate::ui_input::repeated(' ', 0));
    while i < width
        invariant
            i <= width,
            v@ == crate::ui_input::repeated(' ', i as nat),
        decreases width - i,
    {
        v.push(' ');
        assert(v@ =~= crate::ui_input::repeated(' ', (i + 1) as nat));
        i = i + 1;
    }
    v
}

fn drifted(index: u64, stride: u64, slowness: u64, phase: u64, width: u64) -> (at: usize)
    requires
        index <= 6,
        stride <= 17,
        0 < slowness <= 2,
        phase <= u32::MAX,
        34 <= width <= 72,
    ensures
        at == drift(
            index as int,
            stride as int,
            slowness as int,
            phase as int,
            width as int,
        ),
        at < width,
{
    assert(index * stride <= 102) by (nonlinear_arith)
        requires
            index <= 6,
            stride <= 17,
    ;
    let moved: u64 = phase / (index + slowness);
    proof {
        vstd::arithmetic::div_mod::lemma_div_nonincreasing(
            phase as int,
            index + slowness,
        );
    }
    ((index * stride + moved) % width) as usize
}

fn text_from(v: &Vec<char>) -> (s: String)
    ensures
        s@ == v@,
{
    let s = text_of(v, 0, v.len());
    assert(s@ =~= v@);
    s
}

/// The scene above a running generation.
pub fn cloud_cinema(requested: u16, phase: u32, reduced_motion: bool, unicode: bool) -> (lines: Vec<
    ShownLine,
>)
    ensures
        lines_view(lines@) == scene_says(requested, phase, reduced_motion, unicode),
{
    let width: u16 = if requested < 34 {
        34
    } else if requested > 72 {
        72
    } else {
        requested
    };
    let at: u64 = if reduced_motion {
        0
    } else {
        phase as u64
    };
    let ascii = !unicode;
    let signs: Vec<char> = if ascii {
        vec!['*', '.', '+', '.', '*', '.']
    } else {
        vec!['✦', '·', '⋆', '✧', '·', '✶']
    };
    assert(signs@ =~= star_signs(ascii));
    let mut sky = blanks(width as usize);
    let mut i: u64 = 0;
    while i < 6
        invariant
            i <= 6,
            34 <= width <= 72,
            at <= u32::MAX,
            signs@ == star_signs(ascii),
            sky@ == sky_with(i as nat, width as nat, at as nat, ascii),
            sky@.len() == width,
        decreases 6 - i,
    {
        let place: usize = drifted(i, 11, 1, at, width as u64);
        let sign: char = signs[((at + i) % 6) as usize];
        sky.set(place, sign);
        i = i + 1;
    }
    let mut clouds = blanks(width as usize);
    let mut k: u64 = 0;
    let cloud = if ascii {
        '~'
    } else {
        '☁'
    };
    while k < 4
        invariant
            k <= 4,
            34 <= width <= 72,
            at <= u32::MAX,
            cloud == (if ascii {
                '~'
            } else {
                '☁'
            }),
            clouds@ == clouds_with(k as nat, width as nat, at as nat, ascii),
            clouds@.len() == width,
        decreases 4 - k,
    {
        let place: usize = drifted(k, 17, 2, at, width as u64);
        clouds.set(place, cloud);
        k = k + 1;
    }
    let turn: u64 = at % 4;
    let reel = if ascii {
        if turn == 0 || turn == 2 {
            "o"
        } else {
            "O"
        }
    } else if turn == 0 {
        "◜"
    } else if turn == 1 {
        "◝"
    } else if turn == 2 {
        "◞"
    } else {
        "◟"
    };
    let cinema = if ascii {
        concat3(reel, "O\\  +-------------+  /O", reel)
    } else {
        concat3(reel, "◉╲  ┌─────────────┐  ╱◉", reel)
    };
    let beam = if ascii {
        "\\      tiny cloud cinema      /"
    } else {
        "╲      tiny cloud cinema      ╱"
    };
    let ground = if ascii {
        "--------------------------------"
    } else {
        "────────────────────────────────"
    };
    let mut lines: Vec<ShownLine> = Vec::new();
    assert(lines_view(lines@) =~= Seq::<LineView>::empty());
    add_line(&mut lines, text_from(&sky), Tone::Stars);
    add_line(&mut lines, text_from(&clouds), Tone::Clouds);
    add_line(&mut lines, cinema, Tone::Bold);
    add_line(&mut lines, beam.to_owned(), Tone::Clouds);
    add_line(&mut lines, ground.to_owned(), Tone::Stars);
    assert(lines_view(lines@) =~= scene_says(requested, phase, reduced_motion, unicode));
    lines
}

/// A screen without motion shows the same scene whatever the time.
pub proof fn still_scene_is_still(requested: u16, a: u32, b: u32, unicode: bool)
    ensures
        scene_says(requested, a, true, unicode) == scene_says(requested, b, true, unicode),
{
}

/// The adapter options that a typed text stands for: none where it is blank, or else the document
/// that it is, or why it is none.
pub fn typed_options(text: &str) -> (r: Result<Option<Json>, String>)
    ensures
        match r {
            Ok(None) => crate::text::trimmed(text@).len() == 0,
            Ok(Some(json)) => crate::text::trimmed(text@).len() > 0 && crate::outside::document_of(
                crate::text::trimmed(text@),
            ) == Ok::<JsonView, Seq<char>>(json@),
            Err(message) => crate::text::trimmed(text@).len() > 0 && crate::outside::document_of(
                crate::text::trimmed(text@),
            ) == Err::<JsonView, Seq<char>>(message@),
        },
{
    let text = trim_text(text);
    if text.is_empty() {
        return Ok(None);
    }
    match read_document(text) {
        Ok(json) => Ok(Some(json)),
        Err(message) => Err(message),
    }
}

} // verus!
