//! What the terminal's parts promise: what a key does to a text, and what is shown of costs, choices
//! and times.

use crate::ui_input::{EditorView, KeyCode, KeyEvent, SecretView};
use vstd::prelude::*;

verus! {

/// A key without modifiers.
pub open spec fn bare(code: KeyCode) -> KeyEvent {
    KeyEvent { code, control: false, alt: false }
}

/// A typed character stands where the cursor was, and the cursor behind it; everything else stays in
/// its order. The line key breaks a line only in a text of several.
pub proof fn typing_puts_in_a_character(state: EditorView, c: char, i: int)
    requires
        state.well_formed(),
    ensures
        ({
            let (after, handled) = state.after_key(bare(KeyCode::Char(c)));
            &&& handled
            &&& after.text.len() == state.text.len() + 1
            &&& after.text[state.cursor as int] == c
            &&& after.cursor == state.cursor + 1
            &&& 0 <= i < state.cursor ==> after.text[i] == state.text[i]
            &&& state.cursor <= i < state.text.len() ==> after.text[i + 1] == state.text[i]
        }),
        state.multiline ==> state.after_key(bare(KeyCode::Enter)) == state.after_key(
            bare(KeyCode::Char('\n')),
        ),
        !state.multiline ==> state.after_key(bare(KeyCode::Enter)) == (state, false),
{
}

/// Erasing takes out the character before the cursor, and deleting the one behind it; at the end of
/// the text in that direction nothing happens.
pub proof fn erasing_takes_out_a_character(state: EditorView, i: int)
    requires
        state.well_formed(),
    ensures
        ({
            let (after, handled) = state.after_key(bare(KeyCode::Backspace));
            &&& handled <==> state.cursor > 0
            &&& state.cursor == 0 ==> after == state
            &&& state.cursor > 0 ==> after.cursor == state.cursor - 1 && after.text.len()
                == state.text.len() - 1
            &&& 0 <= i < state.cursor - 1 ==> after.text[i] == state.text[i]
            &&& 0 < state.cursor <= i < state.text.len() ==> after.text[i - 1] == state.text[i]
        }),
        ({
            let (after, handled) = state.after_key(bare(KeyCode::Delete));
            &&& handled <==> state.cursor < state.text.len()
            &&& after.cursor == state.cursor
            &&& state.cursor < state.text.len() ==> after.text.len() == state.text.len() - 1
            &&& 0 <= i < state.cursor ==> after.text[i] == state.text[i]
            &&& state.cursor < i < state.text.len() ==> after.text[i - 1] == state.text[i]
        }),
{
}

proof fn line_starts_behind_a_break(text: Seq<char>)
    ensures
        ({
            let n = crate::ui_input::last_line_start(text);
            &&& n <= text.len()
            &&& n > 0 ==> text[n - 1] == '\n'
            &&& forall|i: int| n <= i < text.len() ==> #[trigger] text[i] != '\n'
        }),
    decreases text.len(),
{
    if text.len() > 0 && text.last() != '\n' {
        let rest = text.drop_last();
        line_starts_behind_a_break(rest);
        let n = crate::ui_input::last_line_start(text);
        assert forall|i: int| n <= i < text.len() implies #[trigger] text[i] != '\n' by {
            if i < rest.len() {
                assert(rest[i] == text[i]);
            }
        }
    }
}

proof fn line_ends_before_a_break(text: Seq<char>)
    ensures
        ({
            let n = crate::text::before_char(text, '\n');
            &&& n <= text.len()
            &&& n < text.len() ==> text[n as int] == '\n'
            &&& forall|i: int| 0 <= i < n ==> #[trigger] text[i] != '\n'
        }),
    decreases text.len(),
{
    if text.len() > 0 && text[0] != '\n' {
        line_ends_before_a_break(text.skip(1));
        let n = crate::text::before_char(text, '\n');
        assert forall|i: int| 0 <= i < n implies #[trigger] text[i] != '\n' by {
            if i > 0 {
                assert(text.skip(1)[i - 1] == text[i]);
            }
        }
    }
}

/// The cursor moves by one character to either side, to the start of its line or to its end, and
/// the text stays as it is.
pub proof fn the_cursor_moves_in_its_line(state: EditorView)
    requires
        state.well_formed(),
    ensures
        state.after_key(bare(KeyCode::Left)).0 == (EditorView {
            cursor: if state.cursor > 0 {
                (state.cursor - 1) as nat
            } else {
                0
            },
            ..state
        }),
        state.after_key(bare(KeyCode::Right)).0 == (EditorView {
            cursor: if state.cursor < state.text.len() {
                state.cursor + 1
            } else {
                state.cursor
            },
            ..state
        }),
        ({
            let after = state.after_key(bare(KeyCode::Home)).0;
            &&& after.text == state.text && after.cursor <= state.cursor
            &&& after.cursor > 0 ==> state.text[after.cursor - 1] == '\n'
            &&& forall|i: int|
                after.cursor <= i < state.cursor ==> #[trigger] state.text[i] != '\n'
        }),
        ({
            let after = state.after_key(bare(KeyCode::End)).0;
            &&& after.text == state.text && state.cursor <= after.cursor <= state.text.len()
            &&& after.cursor < state.text.len() ==> state.text[after.cursor as int] == '\n'
            &&& forall|i: int|
                state.cursor <= i < after.cursor ==> #[trigger] state.text[i] != '\n'
        }),
{
    let front = state.text.take(state.cursor as int);
    let back = state.text.skip(state.cursor as int);
    line_starts_behind_a_break(front);
    line_ends_before_a_break(back);
    let home = state.after_key(bare(KeyCode::Home)).0;
    let end = state.after_key(bare(KeyCode::End)).0;
    assert forall|i: int| home.cursor <= i < state.cursor implies #[trigger] state.text[i]
        != '\n' by {
        assert(front[i] == state.text[i]);
    }
    if home.cursor > 0 {
        assert(front[home.cursor - 1] == state.text[home.cursor - 1]);
    }
    assert forall|i: int| state.cursor <= i < end.cursor implies #[trigger] state.text[i]
        != '\n' by {
        assert(back[i - state.cursor] == state.text[i]);
    }
    if end.cursor < state.text.len() {
        assert(back[end.cursor - state.cursor] == state.text[end.cursor as int]);
    }
}

/// A key with a modifier is left to others.
pub proof fn modified_keys_are_left_alone(state: EditorView, secret: SecretView, key: KeyEvent)
    requires
        key.control || key.alt,
    ensures
        state.after_key(key) == (state, false),
        secret.after_key(key) == (secret, false),
{
}

/// A secret takes no white space; anything else is put in where the cursor is.
pub proof fn secrets_hold_no_white_space(state: SecretView, c: char, i: int)
    requires
        state.well_formed(),
        forall|k: int| 0 <= k < state.secret.len() ==> !crate::text::white_space(
            #[trigger] state.secret[k],
        ),
    ensures
        ({
            let (after, handled) = state.after_key(bare(KeyCode::Char(c)));
            &&& handled <==> !crate::text::white_space(c)
            &&& crate::text::white_space(c) ==> after == state
            &&& !crate::text::white_space(c) ==> after.secret.len() == state.secret.len() + 1
                && after.secret[state.cursor as int] == c && after.cursor == state.cursor + 1
            &&& 0 <= i < after.secret.len() ==> !crate::text::white_space(after.secret[i])
        }),
        state.after_key(bare(KeyCode::Home)).0.cursor == 0,
        state.after_key(bare(KeyCode::End)).0.cursor == state.secret.len(),
{
    let after = state.after_key(bare(KeyCode::Char(c))).0;
    if !crate::text::white_space(c) && 0 <= i < after.secret.len() {
        if i < state.cursor {
            assert(after.secret[i] == state.secret[i]);
        } else if i > state.cursor {
            assert(after.secret[i] == state.secret[i - 1]);
        }
    }
}

/// What is pasted into a secret loses its white space and nothing else.
pub proof fn pasted_secrets_lose_white_space(text: Seq<char>)
    ensures
        crate::ui_input::solid(text) == text.filter(|c: char| !crate::text::white_space(c)),
    decreases text.len(),
{
    reveal(Seq::filter);
    if text.len() > 0 {
        pasted_secrets_lose_white_space(text.drop_last());
    }
}

/// A cost is shown in dollars where its currency is that, in letters of either case, or is not
/// named; otherwise with its currency behind it. Without an amount it is unavailable.
pub proof fn costs_are_shown_with_their_currency(amount: Seq<char>, currency: Seq<char>)
    ensures
        crate::ui::cost_text(None, Some(currency)) == "unavailable"@,
        crate::ui::cost_text(Some(amount), None) == "$"@ + amount + " USD"@,
        crate::ui::cost_text(Some(amount), Some("USD"@)) == "$"@ + amount + " USD"@,
        currency.len() > 0 && crate::text::lower_text(currency) != crate::text::lower_text("USD"@)
            ==> crate::ui::cost_text(Some(amount), Some(currency)) == amount + " "@ + currency,
{
    reveal_strlit("USD");
}

/// A choice is shown as it is, and as the provider's default where none is made; a duration is shown
/// in seconds where it is a usual one.
pub proof fn choices_are_shown(values: Seq<Seq<char>>, durations: Seq<u32>, i: usize)
    ensures
        crate::ui::chosen_text(values, None) == "provider default"@,
        i < values.len() ==> crate::ui::chosen_text(values, Some(i)) == values[i as int],
        i >= values.len() ==> crate::ui::chosen_text(values, Some(i)) == "provider default"@,
        crate::ui::chosen_duration(durations, None) == "provider default"@,
        i < durations.len() && (durations[i as int] == 5 || durations[i as int] == 4
            || durations[i as int] == 6 || durations[i as int] == 8) ==> crate::ui::chosen_duration(
            durations,
            Some(i),
        ) == crate::text::numeral(durations[i as int] as nat) + "s"@,
        i < durations.len() && durations[i as int] == 10 ==> crate::ui::chosen_duration(
            durations,
            Some(i),
        ) == "10s"@,
        i < durations.len() && (durations[i as int] == 7 || durations[i as int] > 10)
            ==> crate::ui::chosen_duration(durations, Some(i)) == "custom duration"@,
{
    reveal_strlit("4s");
    reveal_strlit("5s");
    reveal_strlit("6s");
    reveal_strlit("8s");
    reveal_strlit("s");
    assert(crate::text::numeral(4) + "s"@ =~= "4s"@);
    assert(crate::text::numeral(5) + "s"@ =~= "5s"@);
    assert(crate::text::numeral(6) + "s"@ =~= "6s"@);
    assert(crate::text::numeral(8) + "s"@ =~= "8s"@);
}

/// The providers' badges.
pub proof fn providers_have_badges()
    ensures
        crate::ui::badge("fal"@) == "[FAL]"@,
        crate::ui::badge("openrouter"@) == "[OR]"@,
{
    reveal_strlit("fal");
    reveal_strlit("openrouter");
    assert("fal"@.len() == 3 && "openrouter"@.len() == 10);
}

/// The cursor is shown inside the text where it stands, at the end at most; without its sign the
/// text is as it was.
pub proof fn the_cursor_is_shown_in_the_text(value: Seq<char>, at: nat, unicode: bool)
    ensures
        ({
            let shown = crate::ui::with_cursor(value, at, unicode);
            let n = if at < value.len() {
                at as int
            } else {
                value.len() as int
            };
            &&& shown.len() == value.len() + 1
            &&& shown[n] == (if unicode {
                '▏'
            } else {
                '|'
            })
            &&& crate::ui_input::taken_out(shown, n) == value
        }),
{
    reveal_strlit("▏");
    reveal_strlit("|");
    let n = if at < value.len() {
        at as int
    } else {
        value.len() as int
    };
    assert(crate::ui_input::taken_out(crate::ui::with_cursor(value, at, unicode), n) =~= value);
}

/// Numbers below a hundred are shown with two digits.
pub proof fn two_digits_are_shown(n: nat)
    requires
        n < 100,
    ensures
        crate::ui::two_digits(n).len() == 2,
        crate::text::digits_value(crate::ui::two_digits(n)) == n,
{
    reveal_strlit("0");
    crate::place_laws::numerals_are_read_back(n);
    if n < 10 {
        assert(crate::text::numeral(n) == seq![crate::text::digit(n)]);
        let shown = crate::ui::two_digits(n);
        assert(shown =~= seq!['0', crate::text::digit(n)]);
        assert(shown.drop_last() =~= seq!['0']);
        assert(seq!['0'].drop_last() =~= Seq::<char>::empty());
        reveal_with_fuel(crate::text::digits_value, 3);
    } else {
        assert(crate::text::numeral(n / 10) == seq![crate::text::digit(n / 10)]);
    }
}

/// The breaks of a text are its line feeds.
pub proof fn breaks_are_line_feeds(text: Seq<char>)
    ensures
        crate::ui_input::breaks(text) == text.filter(|c: char| c == '\n').len(),
    decreases text.len(),
{
    reveal(Seq::filter);
    if text.len() > 0 {
        let rest = text.skip(1);
        breaks_are_line_feeds(rest);
        filter_of_head(text);
    }
}

proof fn filter_of_head(text: Seq<char>)
    requires
        text.len() > 0,
    ensures
        text.filter(|c: char| c == '\n').len() == text.skip(1).filter(|c: char| c == '\n').len()
            + if text[0] == '\n' {
            1nat
        } else {
            0nat
        },
    decreases text.len(),
{
    reveal(Seq::filter);
    if text.len() > 1 {
        filter_of_head(text.drop_last());
        assert(text.drop_last().skip(1) =~= text.skip(1).drop_last());
    } else {
        assert(text.skip(1).len() == 0);
        assert(text.drop_last().len() == 0);
        reveal_with_fuel(Seq::filter, 2);
    }
}

/// The cursor goes to the line that lies so many lines on, where the text has it.
pub proof fn lines_are_counted_from_the_cursor(line: nat, delta: int, count: nat)
    requires
        line < count,
    ensures
        crate::ui_input::line_away(line, delta, count) is Some <==> 0 <= line + delta < count,
        crate::ui_input::line_away(line, delta, count) matches Some(target) ==> target == line
            + delta,
{
}

proof fn breaks_add_up(a: Seq<char>, b: Seq<char>)
    ensures
        crate::ui_input::breaks(a + b) == crate::ui_input::breaks(a) + crate::ui_input::breaks(b),
    decreases a.len(),
{
    if a.len() == 0 {
        assert(a + b =~= b);
    } else {
        breaks_add_up(a.skip(1), b);
        assert((a + b).skip(1) =~= a.skip(1) + b);
    }
}

proof fn whole_lines_have_no_break(text: Seq<char>)
    requires
        forall|i: int| 0 <= i < text.len() ==> #[trigger] text[i] != '\n',
    ensures
        crate::ui_input::breaks(text) == 0,
    decreases text.len(),
{
    if text.len() > 0 {
        let rest = text.skip(1);
        assert forall|i: int| 0 <= i < rest.len() implies #[trigger] rest[i] != '\n' by {
            assert(rest[i] == text[i + 1]);
        }
        assert(text[0] != '\n');
        whole_lines_have_no_break(rest);
    }
}

proof fn lines_begin_behind_their_breaks(text: Seq<char>, line: nat)
    requires
        line <= crate::ui_input::breaks(text),
    ensures
        ({
            let b = crate::ui_input::line_begin(text, line);
            &&& b <= text.len()
            &&& crate::ui_input::breaks(text.take(b as int)) == line
            &&& b > 0 ==> text[b - 1] == '\n'
        }),
    decreases line,
{
    if line == 0 {
        assert(text.take(0).len() == 0);
    } else {
        let n = crate::text::before_char(text, '\n');
        line_ends_before_a_break(text);
        let head = text.take(n as int);
        assert forall|i: int| 0 <= i < head.len() implies #[trigger] head[i] != '\n' by {
            assert(head[i] == text[i]);
        }
        whole_lines_have_no_break(head);
        if n == text.len() {
            assert(head =~= text);
        }
        let first = text.take(n as int + 1);
        let rest = text.skip(n as int + 1);
        let feed = seq!['\n'];
        assert(feed.skip(1).len() == 0);
        assert(crate::ui_input::breaks(feed.skip(1)) == 0);
        assert(crate::ui_input::breaks(feed) == 1);
        assert(first =~= head + feed);
        breaks_add_up(head, feed);
        assert(text =~= first + rest);
        breaks_add_up(first, rest);
        lines_begin_behind_their_breaks(rest, (line - 1) as nat);
        let r = crate::ui_input::line_begin(rest, (line - 1) as nat);
        let b = crate::ui_input::line_begin(text, line);
        assert(b == n + 1 + r);
        assert(text.take(b as int) =~= first + rest.take(r as int));
        breaks_add_up(first, rest.take(r as int));
        if r > 0 {
            assert(rest[r - 1] == text[b - 1]);
        }
    }
}

proof fn last_lines_start_there(text: Seq<char>, b: nat)
    requires
        b <= text.len(),
        b > 0 ==> text[b - 1] == '\n',
        forall|i: int| b <= i < text.len() ==> #[trigger] text[i] != '\n',
    ensures
        crate::ui_input::last_line_start(text) == b,
    decreases text.len(),
{
    if b < text.len() {
        let rest = text.drop_last();
        assert(text[text.len() - 1] != '\n');
        assert forall|i: int| b <= i < rest.len() implies #[trigger] rest[i] != '\n' by {
            assert(rest[i] == text[i]);
        }
        if b > 0 {
            assert(rest[b - 1] == text[b - 1]);
        }
        last_lines_start_there(rest, b);
    }
}

/// A move by lines puts the cursor on the line so many on, in the same column or, where that line is
/// shorter, at its end; where the text has no such line, nothing moves. The text stays as it is.
pub proof fn the_cursor_moves_between_lines(state: EditorView, delta: int)
    requires
        state.well_formed(),
    ensures
        ({
            let (line, column) = state.line_column();
            let after = state.moved(delta);
            let lines = crate::ui_input::breaks(state.text) + 1;
            &&& after.text == state.text
            &&& !(0 <= line + delta < lines) ==> after == state
            &&& 0 <= line + delta < lines ==> after.cursor <= state.text.len()
                && after.line_column().0 == line + delta && after.line_column().1 <= column && (
            after.line_column().1 < column ==> after.cursor == state.text.len()
                || state.text[after.cursor as int] == '\n')
        }),
{
    let text = state.text;
    let (line, column) = state.line_column();
    let front = text.take(state.cursor as int);
    assert(text =~= front + text.skip(state.cursor as int));
    breaks_add_up(front, text.skip(state.cursor as int));
    if 0 <= line + delta < crate::ui_input::breaks(text) + 1 {
        let target = (line + delta) as nat;
        lines_begin_behind_their_breaks(text, target);
        let b = crate::ui_input::line_begin(text, target);
        let tail = text.skip(b as int);
        line_ends_before_a_break(tail);
        let length = crate::ui_input::line_length(text, b);
        let c = state.moved(delta).cursor;
        assert(b <= c <= b + length);
        let piece = text.subrange(b as int, c as int);
        assert forall|i: int| 0 <= i < piece.len() implies #[trigger] piece[i] != '\n' by {
            assert(piece[i] == tail[i]);
        }
        whole_lines_have_no_break(piece);
        let upto = text.take(c as int);
        assert(upto =~= text.take(b as int) + piece);
        breaks_add_up(text.take(b as int), piece);
        assert forall|i: int| b <= i < upto.len() implies #[trigger] upto[i] != '\n' by {
            assert(upto[i] == piece[i - b]);
        }
        if b > 0 {
            assert(upto[b - 1] == text[b - 1]);
        }
        last_lines_start_there(upto, b);
        if c == b + length && c < text.len() {
            assert(tail[length as int] == text[c as int]);
        }
    }
}

/// The keys up and down move by one line in a text of several, and do nothing in a text of one.
pub proof fn up_and_down_move_by_one_line(state: EditorView)
    requires
        state.well_formed(),
    ensures
        !state.multiline ==> state.after_key(bare(KeyCode::Up)).0 == state && state.after_key(
            bare(KeyCode::Down),
        ).0 == state,
        state.multiline && state.line_column().0 > 0 ==> state.after_key(
            bare(KeyCode::Up),
        ).0.line_column().0 == state.line_column().0 - 1,
        state.multiline && state.line_column().0 == 0 ==> state.after_key(bare(KeyCode::Up)).0
            == state,
        state.multiline && state.line_column().0 < crate::ui_input::breaks(state.text)
            ==> state.after_key(bare(KeyCode::Down)).0.line_column().0 == state.line_column().0 + 1,
        state.after_key(bare(KeyCode::Up)).0.text == state.text,
        state.after_key(bare(KeyCode::Down)).0.text == state.text,
{
    let front = state.text.take(state.cursor as int);
    let back = state.text.skip(state.cursor as int);
    assert(state.text =~= front + back);
    breaks_add_up(front, back);
    the_cursor_moves_between_lines(state, -1);
    the_cursor_moves_between_lines(state, 1);
}

/// A known cost is shown first with its amount, as quoted or as estimated; an unknown one says so, and
/// shows what is advertised.
pub proof fn costs_are_told(cost: crate::ui::CostView, unicode: bool)
    ensures
        ({
            let lines = crate::ui::cost_says(cost, unicode);
            &&& cost.amount matches Some(amount) ==> lines.len() == 2 && lines[0].0 == (
            if cost.exact {
                "Quoted cost"@
            } else {
                "Estimated cost"@
            }) + ": "@ + crate::ui::cost_text(Some(amount@), Some(cost.currency@))
            &&& cost.amount is None ==> lines[0].0 == "Cost estimate unavailable"@
            &&& cost.amount is None && cost.raw_pricing@.len() > 0 ==> lines.last().0
                == "Advertised pricing: "@ + cost.raw_pricing@
            &&& unicode ==> lines[1].0 == cost.basis@
        }),
{
}

/// A confirmation shows the request that is about to be sent and what it costs, and asks for consent
/// to an unknown charge if and only if the cost is unknown.
pub proof fn confirmations_show_the_request(
    request: crate::domain::VideoRequest,
    provider_name: Seq<char>,
    estimate: crate::ui::CostView,
    unicode: bool,
    i: int,
)
    ensures
        ({
            let lines = crate::ui::confirmation_says(request, provider_name, estimate, unicode);
            let cost = crate::ui::cost_says(estimate, unicode);
            &&& lines[4].0 == "Model: "@ + request.model@
            &&& lines[5].0 == "Prompt: "@ + request.prompt@
            &&& request.duration matches Some(seconds) ==> lines[6].0 == "Duration: "@ + (
            crate::text::numeral(seconds as nat) + "s"@)
            &&& request.duration is None ==> lines[6].0 == "Duration: "@ + "provider default"@
            &&& request.size matches Some(size) ==> lines[7].0 == "Resolution: "@ + size@
            &&& request.size is None ==> (request.resolution matches Some(resolution) ==> lines[7].0
                == "Resolution: "@ + resolution@)
            &&& request.size is None && request.resolution is None ==> lines[7].0 == "Resolution: "@
                + "provider default"@
            &&& 0 <= i < cost.len() ==> lines[9 + i] == cost[i]
            &&& estimate.amount is None ==> lines.len() == cost.len() + 11 && lines[9
                + cost.len() as int].0 == "Confirm only if you accept an unknown charge."@
            &&& estimate.amount is Some ==> lines.len() == cost.len() + 10
        }),
{
}

/// A job's progress shows its status, its identifier once there is one, and its failure where there is
/// one; monitoring can be tried again only where there is a job to watch.
pub proof fn progress_is_told(panel: crate::ui::ProgressPanel)
    ensures
        ({
            let lines = crate::ui::progress_says(panel);
            &&& lines[0].0 == panel.status@ + "  "@ + panel.detail@
            &&& panel.job_id matches Some(id) ==> lines[2].0 == "Job "@ + id@
            &&& panel.job_id is None ==> lines[2].0 == "Waiting for a job ID..."@
            &&& panel.downloaded matches Some(text) ==> lines[3].0 == text@
            &&& panel.error is None && panel.downloaded is None ==> lines.len() == 3
            &&& panel.error matches Some(error) ==> (panel.job_id is None ==> lines.last().0
                == "Error: "@ + error@)
            &&& panel.error matches Some(error) ==> (panel.job_id is Some ==> lines[lines.len()
                - 2].0 == "Error: "@ + error@ && lines.last().0
                == "Press R to retry monitoring; no new generation will be submitted."@)
        }),
{
}

/// A finished job shows where its video is, and what it cost in the end.
pub proof fn completions_are_told(
    provider_id: Seq<char>,
    job_id: Seq<char>,
    path: Seq<char>,
    cost: Option<Seq<char>>,
    currency: Option<Seq<char>>,
    unicode: bool,
)
    ensures
        ({
            let lines = crate::ui::complete_says(
                provider_id,
                job_id,
                path,
                cost,
                currency,
                unicode,
            );
            &&& lines[2].0 == path
            &&& crate::ui::cost_text(cost, currency).is_suffix_of(lines[4].0)
        }),
{
    let lines = crate::ui::complete_says(provider_id, job_id, path, cost, currency, unicode);
    let lead = crate::ui::badge(provider_id) + "  Job "@ + job_id + "  "@ + if unicode {
        "•"@
    } else {
        "-"@
    } + "  Final cost "@;
    assert(lines[4].0 == lead + crate::ui::cost_text(cost, currency));
}

/// A summary is short, and says so where there is nothing to sum up.
pub proof fn summaries_are_short(text: Seq<char>)
    ensures
        crate::ui::summary(text).len() <= 30,
        crate::text::trimmed(text).len() == 0 ==> crate::ui::summary(text) == "not set"@,
        crate::text::trimmed(text).len() > 0 && crate::ui::first_line(text).len() <= 30
            ==> crate::ui::summary(text) == crate::ui::first_line(text),
        crate::text::trimmed(text).len() > 0 && crate::ui::first_line(text).len() > 30
            ==> crate::ui::summary(text) == crate::ui::first_line(text).take(30),
{
    reveal_strlit("not set");
}

/// A model's screen has a line for each control that the model offers, with the value chosen for it,
/// and as many lines as it offers controls.
pub proof fn models_show_what_they_offer(
    panel: crate::ui::ComposePanel,
    model: crate::ui::ShownModel,
)
    ensures
        ({
            let lines = crate::ui::model_says(panel, model);
            let offered = |b: bool|
                if b {
                    1nat
                } else {
                    0nat
                };
            &&& lines.len() == offered(model.durations@.len() > 0) + offered(
                model.resolutions@.len() > 0,
            ) + offered(model.aspect_ratios@.len() > 0) + offered(model.sizes@.len() > 0)
                + offered(model.audio) + offered(model.seed)
            &&& model.durations@.len() > 0 ==> lines[0] == crate::ui::field_says(
                "Duration"@,
                crate::ui::chosen_duration(model.durations@, panel.duration_index),
                panel.focus is Duration,
            )
            &&& model.resolutions@.len() > 0 ==> lines[offered(model.durations@.len() > 0) as int]
                == crate::ui::field_says(
                "Resolution"@,
                crate::ui::chosen_text(
                    crate::text::texts(model.resolutions@),
                    panel.resolution_index,
                ),
                panel.focus is Resolution,
            )
            &&& model.aspect_ratios@.len() > 0 ==> lines.contains(
                crate::ui::field_says(
                    "Aspect"@,
                    crate::ui::chosen_text(
                        crate::text::texts(model.aspect_ratios@),
                        panel.aspect_index,
                    ),
                    panel.focus is AspectRatio,
                ),
            )
            &&& model.sizes@.len() > 0 ==> lines.contains(
                crate::ui::field_says(
                    "Exact size"@,
                    crate::ui::chosen_text(crate::text::texts(model.sizes@), panel.size_index),
                    panel.focus is Size,
                ),
            )
            &&& model.audio ==> lines.contains(
                crate::ui::field_says(
                    "Audio"@,
                    if panel.audio {
                        "[x] on"@
                    } else {
                        "[ ] off"@
                    },
                    panel.focus is Audio,
                ),
            )
        }),
{
    let lines = crate::ui::model_says(panel, model);
    let offered = |b: bool|
        if b {
            1nat
        } else {
            0nat
        };
    let d = offered(model.durations@.len() > 0) as int;
    let r = d + offered(model.resolutions@.len() > 0);
    let a = r + offered(model.aspect_ratios@.len() > 0);
    let s = a + offered(model.sizes@.len() > 0);
    if model.aspect_ratios@.len() > 0 {
        assert(lines[r] == crate::ui::field_says(
            "Aspect"@,
            crate::ui::chosen_text(crate::text::texts(model.aspect_ratios@), panel.aspect_index),
            panel.focus is AspectRatio,
        ));
    }
    if model.sizes@.len() > 0 {
        assert(lines[a] == crate::ui::field_says(
            "Exact size"@,
            crate::ui::chosen_text(crate::text::texts(model.sizes@), panel.size_index),
            panel.focus is Size,
        ));
    }
    if model.audio {
        assert(lines[s] == crate::ui::field_says(
            "Audio"@,
            if panel.audio {
                "[x] on"@
            } else {
                "[ ] off"@
            },
            panel.focus is Audio,
        ));
    }
}

} // verus!
