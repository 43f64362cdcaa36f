//! What the client keeps between sessions: drafts without credentials, upload receipts and the
//! record of paid submissions whose outcome is not known.

use crate::domain::{
    DraftMedia, GenerationDraft, JobLocator, MediaRole, MediaSource, ProviderId, ProviderJobKey,
    Timestamp,
};
use crate::json::{insert_member, member, Json, JsonView, Member};
use crate::outside::{integer, nfc, read_document, read_moment, render, sha256, write_rfc3339};
use crate::text::{
    chars_of, concat, concat3, contains_text, decimal, ends_with_text, is_white_space, lower_char,
    same_text, signed_decimal, starts_with_text, text_of, trim_text,
};
use vstd::prelude::*;

verus! {

/// The key under which the exact editor text travels inside a draft's settings.
pub const DRAFT_EDITOR_STATE_KEY: &'static str = "__video_harness_editor_v1";

/// The longest seed text, in bytes.
pub const MAX_SEED_TEXT_BYTES: usize = 1024;

/// The longest advanced JSON text, in bytes.
pub const MAX_ADVANCED_JSON_TEXT_BYTES: usize = 524288;

/// The most schema editor fields.
pub const MAX_SCHEMA_TEXT_FIELDS: usize = 256;

/// The longest name of a schema editor field, in bytes.
pub const MAX_SCHEMA_FIELD_NAME_BYTES: usize = 512;

/// The longest text of a schema editor field, in bytes.
pub const MAX_SCHEMA_TEXT_VALUE_BYTES: usize = 65536;

/// The only text that an uncertain submission is recorded with.
pub const UNCERTAIN_SUBMISSION_MESSAGE: &'static str =
    "A paid submission may have reached this provider. Check the provider dashboard before allowing this exact draft again.";

/// Why a value cannot be kept.
#[derive(Debug, Clone)]
pub enum GuiStateError {
    UnsupportedSchemaVersion { found: i64, supported: i64 },
    CredentialInDraft,
    InvalidValue(String),
    /// What is kept is not the JSON that it should be.
    Json(String),
}

/// The mathematical value of an error.
pub enum StateProblem {
    UnsupportedSchemaVersion { found: i64, supported: i64 },
    CredentialInDraft,
    InvalidValue(Seq<char>),
    Json(Seq<char>),
}

impl View for GuiStateError {
    type V = StateProblem;

    open spec fn view(&self) -> StateProblem {
        match *self {
            GuiStateError::UnsupportedSchemaVersion { found, supported } =>
                StateProblem::UnsupportedSchemaVersion { found, supported },
            GuiStateError::CredentialInDraft => StateProblem::CredentialInDraft,
            GuiStateError::InvalidValue(message) => StateProblem::InvalidValue(message@),
            GuiStateError::Json(message) => StateProblem::Json(message@),
        }
    }
}

/// The message of an error.
pub open spec fn problem_says(problem: StateProblem) -> Seq<char> {
    match problem {
        StateProblem::UnsupportedSchemaVersion { found, supported } => "GUI state schema version "@
            + crate::text::signed_numeral(found as int) + (" is newer than supported version "@
            + crate::text::signed_numeral(supported as int)),
        StateProblem::CredentialInDraft => "draft settings may not contain credential fields"@,
        StateProblem::InvalidValue(message) => "invalid GUI state value: "@ + message,
        StateProblem::Json(message) => "could not serialize GUI state: "@ + message,
    }
}

impl GuiStateError {
    /// The message of the error.
    pub fn message(&self) -> (s: String)
        ensures
            s@ == problem_says(self@),
    {
        match self {
            GuiStateError::UnsupportedSchemaVersion { found, supported } => {
                let f = signed_decimal(*found);
                let s = signed_decimal(*supported);
                let head = concat("GUI state schema version ", f.as_str());
                let tail = concat(" is newer than supported version ", s.as_str());
                concat(head.as_str(), tail.as_str())
            },
            GuiStateError::CredentialInDraft =>
                "draft settings may not contain credential fields".to_owned(),
            GuiStateError::InvalidValue(message) => concat(
                "invalid GUI state value: ",
                message.as_str(),
            ),
            GuiStateError::Json(message) => concat(
                "could not serialize GUI state: ",
                message.as_str(),
            ),
        }
    }
}

fn invalid(message: &str) -> (e: GuiStateError)
    ensures
        e@ == StateProblem::InvalidValue(message@),
{
    GuiStateError::InvalidValue(message.to_owned())
}

/// Whether `c` is an ASCII letter or digit.
pub open spec fn ascii_alnum(c: char) -> bool {
    'a' <= c <= 'z' || 'A' <= c <= 'Z' || '0' <= c <= '9'
}

fn is_ascii_alnum(c: char) -> (b: bool)
    ensures
        b == ascii_alnum(c),
{
    ('a' <= c && c <= 'z') || ('A' <= c && c <= 'Z') || ('0' <= c && c <= '9')
}

/// The letters and digits of a name, in lower case.
pub open spec fn bare_name(name: Seq<char>) -> Seq<char>
    decreases name.len(),
{
    if name.len() == 0 {
        Seq::empty()
    } else if ascii_alnum(name.last()) {
        bare_name(name.drop_last()).push(crate::text::lower(name.last()))
    } else {
        bare_name(name.drop_last())
    }
}

/// Whether a name, reduced to letters and digits, is one that credentials go by.
pub open spec fn credential_word(word: Seq<char>) -> bool {
    ||| word == "apikey"@
    ||| word == "authorization"@
    ||| word == "credential"@
    ||| word == "credentials"@
    ||| word == "secret"@
    ||| word == "token"@
    ||| word == "accesstoken"@
    ||| word == "refreshtoken"@
    ||| word == "clientsecret"@
    ||| word == "secretkey"@
    ||| word == "privatekey"@
    ||| word == "authtoken"@
    ||| word == "bearertoken"@
    ||| word == "falkey"@
}

/// Whether a reduced name is a generation control that merely speaks of tokens.
pub open spec fn token_control(word: Seq<char>) -> bool {
    word == "maxtoken"@ || word == "mintoken"@ || word == "numtoken"@ || word == "tokencount"@
        || word == "tokenlimit"@
}

/// Whether a field of this name holds a credential.
pub open spec fn credential_name(name: Seq<char>) -> bool {
    let word = bare_name(name);
    ||| credential_word(word)
    ||| "authorization"@.is_prefix_of(word)
    ||| "apikey"@.is_suffix_of(word)
    ||| "secret"@.is_suffix_of(word)
    ||| "token"@.is_suffix_of(word) && !token_control(word)
}

proof fn bare_name_lower(name: Seq<char>)
    ensures
        bare_name(crate::text::lower_text(name)) == bare_name(name),
    decreases name.len(),
{
    if name.len() > 0 {
        bare_name_lower(name.drop_last());
        assert(crate::text::lower_text(name).drop_last() =~= crate::text::lower_text(name.drop_last()));
        assert(crate::text::lower_text(name).last() == crate::text::lower(name.last()));
    } else {
        assert(crate::text::lower_text(name) =~= name);
    }
}

/// Whether a name is a credential's does not depend on the case of its letters.
pub proof fn credential_name_ignores_case(name: Seq<char>)
    ensures
        credential_name(crate::text::lower_text(name)) == credential_name(name),
{
    bare_name_lower(name);
}

/// Whether a name is a credential's does not depend on characters other than letters and digits.
pub proof fn credential_name_ignores_separators(left: Seq<char>, separator: char, right: Seq<char>)
    requires
        !ascii_alnum(separator),
    ensures
        credential_name(left.push(separator) + right) == credential_name(left + right),
{
    bare_name_skips(left, separator, right);
}

proof fn bare_name_skips(left: Seq<char>, separator: char, right: Seq<char>)
    requires
        !ascii_alnum(separator),
    ensures
        bare_name(left.push(separator) + right) == bare_name(left + right),
    decreases right.len(),
{
    let long = left.push(separator) + right;
    let short = left + right;
    if right.len() == 0 {
        assert(long =~= left.push(separator));
        assert(short =~= left);
        assert(long.drop_last() =~= left);
    } else {
        bare_name_skips(left, separator, right.drop_last());
        assert(long.drop_last() =~= left.push(separator) + right.drop_last());
        assert(short.drop_last() =~= left + right.drop_last());
    }
}

fn is_credential_word(word: &str) -> (b: bool)
    ensures
        b == credential_word(word@),
{
    same_text(word, "apikey") || same_text(word, "authorization") || same_text(word, "credential")
        || same_text(word, "credentials") || same_text(word, "secret") || same_text(word, "token")
        || same_text(word, "accesstoken") || same_text(word, "refreshtoken") || same_text(
        word,
        "clientsecret",
    ) || same_text(word, "secretkey") || same_text(word, "privatekey") || same_text(
        word,
        "authtoken",
    ) || same_text(word, "bearertoken") || same_text(word, "falkey")
}

/// Whether a field called `name` holds a credential. Separators and case are ignored; controls
/// such as a token limit are not credentials.
pub fn is_credential_field_name(name: &str) -> (b: bool)
    ensures
        b == credential_name(name@),
{
    let mut word = String::new();
    for c in it: name.chars()
        invariant
            it.seq() == name@,
            word@ == bare_name(name@.take(it.index() as int)),
    {
        assert(name@.take(it.index() + 1).drop_last() =~= name@.take(it.index() as int));
        if is_ascii_alnum(c) {
            word.push(lower_char(c));
        }
    }
    assert(name@.take(name@.len() as int) =~= name@);
    let w = word.as_str();
    is_credential_word(w) || starts_with_text(w, "authorization") || ends_with_text(w, "apikey")
        || ends_with_text(w, "secret") || (ends_with_text(w, "token") && !(same_text(w, "maxtoken")
        || same_text(w, "mintoken") || same_text(w, "numtoken") || same_text(w, "tokencount")
        || same_text(w, "tokenlimit")))
}

/// Whether any member at any depth has a credential's name.
pub open spec fn has_credential(json: JsonView) -> bool
    decreases json,
{
    match json {
        JsonView::Object(members) => exists|i: int|
            0 <= i < members.len() && (credential_name((#[trigger] members[i]).0) || has_credential(
                members[i].1,
            )),
        JsonView::Array(items) => exists|i: int|
            0 <= i < items.len() && has_credential(#[trigger] items[i]),
        _ => false,
    }
}

/// Whether any member at any depth has a credential's name.
pub fn contains_credential_field(value: &Json) -> (b: bool)
    ensures
        b == has_credential(value@),
    decreases value@,
{
    broadcast use crate::json::array_view, crate::json::object_view;

    match value {
        Json::Object(members) => {
            let ghost view = crate::json::members_view(members@);
            let mut i: usize = 0;
            while i < members.len()
                invariant
                    i <= members@.len(),
                    view == crate::json::members_view(members@),
                    value@ == JsonView::Object(view),
                    forall|k: int|
                        0 <= k < i ==> !credential_name((#[trigger] view[k]).0) && !has_credential(
                            view[k].1,
                        ),
                decreases members@.len() - i,
            {
                assert(decreases_to!(value@ => value@->Object_0));
                assert(decreases_to!(value@->Object_0 => view[i as int]));
                assert(decreases_to!(view[i as int] => view[i as int].1));
                assert(view[i as int] == (members@[i as int].key@, members@[i as int].value@));
                if is_credential_field_name(members[i].key.as_str()) || contains_credential_field(
                    &members[i].value,
                ) {
                    assert(has_credential(value@));
                    return true;
                }
                i = i + 1;
            }
            false
        },
        Json::Array(items) => {
            let ghost view = crate::json::items_view(items@);
            let mut i: usize = 0;
            while i < items.len()
                invariant
                    i <= items@.len(),
                    view == crate::json::items_view(items@),
                    value@ == JsonView::Array(view),
                    forall|k: int| 0 <= k < i ==> !has_credential(#[trigger] view[k]),
                decreases items@.len() - i,
            {
                assert(decreases_to!(value@ => value@->Array_0));
                assert(decreases_to!(value@->Array_0 => view[i as int]));
                assert(view[i as int] == items@[i as int]@);
                if contains_credential_field(&items[i]) {
                    assert(has_credential(value@));
                    return true;
                }
                i = i + 1;
            }
            false
        },
        _ => false,
    }
}

/// Whether `c` is ASCII white space.
pub open spec fn ascii_space(c: char) -> bool {
    c == ' ' || c == '\t' || c == '\n' || c == '\r' || c == '\u{c}'
}

fn is_ascii_space(c: char) -> (b: bool)
    ensures
        b == ascii_space(c),
{
    c == ' ' || c == '\t' || c == '\n' || c == '\r' || c == '\u{c}'
}

/// Where a scan of raw text stands: inside which quotes, and whether the next character is
/// escaped.
pub struct ScanState {
    pub quote: Option<char>,
    pub escaped: bool,
}

/// The state after one more character.
pub open spec fn scan_step(state: ScanState, c: char) -> ScanState {
    match state.quote {
        Some(q) => if state.escaped {
            ScanState { quote: state.quote, escaped: false }
        } else if c == '\\' {
            ScanState { quote: state.quote, escaped: true }
        } else if c == q {
            ScanState { quote: None, escaped: false }
        } else {
            state
        },
        None => if c == '\'' || c == '"' {
            ScanState { quote: Some(c), escaped: state.escaped }
        } else {
            state
        },
    }
}

/// The state after the first `n` characters of `s`.
pub open spec fn scan_state(s: Seq<char>, n: nat) -> ScanState
    decreases n,
{
    if n == 0 {
        ScanState { quote: None, escaped: false }
    } else {
        scan_step(scan_state(s, (n - 1) as nat), s[n - 1])
    }
}

/// Whether an assignment stands at `i`: a colon or an equals sign outside quotes.
pub open spec fn assignment_at(s: Seq<char>, i: int) -> bool {
    0 <= i < s.len() && scan_state(s, i as nat).quote is None && (s[i] == ':' || s[i] == '=')
}

/// How many backslashes stand directly before position `p`.
pub open spec fn backslashes_before(s: Seq<char>, p: nat) -> nat
    decreases p,
{
    if p > 0 && s[p - 1] == '\\' {
        backslashes_before(s, (p - 1) as nat) + 1
    } else {
        0
    }
}

/// Whether the character at `p` is escaped: an odd number of backslashes stands before it.
pub open spec fn escaped_at(s: Seq<char>, p: nat) -> bool {
    backslashes_before(s, p) % 2 == 1
}

/// Whether the character at `quote` is escaped.
pub fn quote_is_escaped(s: &Vec<char>, quote: usize) -> (b: bool)
    requires
        quote <= s@.len(),
    ensures
        b == escaped_at(s@, quote as nat),
{
    let mut odd = false;
    let mut cursor: usize = quote;
    while cursor > 0 && s[cursor - 1] == '\\'
        invariant
            cursor <= quote <= s@.len(),
            odd == ((backslashes_before(s@, quote as nat) - backslashes_before(s@, cursor as nat)) % 2 == 1),
            backslashes_before(s@, quote as nat) >= backslashes_before(s@, cursor as nat),
        decreases cursor,
    {
        odd = !odd;
        cursor = cursor - 1;
    }
    odd
}

/// Whether a key may begin at `start`: at the very beginning, after white space or after an
/// opening bracket, a comma or a semicolon.
pub open spec fn key_boundary(s: Seq<char>, start: int) -> bool {
    start == 0 || ascii_space(s[start - 1]) || s[start - 1] == '{' || s[start - 1] == '['
        || s[start - 1] == '(' || s[start - 1] == ',' || s[start - 1] == ';'
}

/// Whether a key may begin at `start`.
pub fn raw_key_has_assignment_boundary(s: &Vec<char>, start: usize) -> (b: bool)
    requires
        start <= s@.len(),
    ensures
        b == key_boundary(s@, start as int),
{
    start == 0 || is_ascii_space(s[start - 1]) || s[start - 1] == '{' || s[start - 1] == '['
        || s[start - 1] == '(' || s[start - 1] == ',' || s[start - 1] == ';'
}

/// The end of what stands before position `i`, leaving white space out.
pub open spec fn end_before(s: Seq<char>, i: nat) -> nat
    decreases i,
{
    if i > 0 && ascii_space(s[i - 1]) {
        end_before(s, (i - 1) as nat)
    } else {
        i
    }
}

/// The position of the nearest unescaped `q` before position `k`.
pub open spec fn quote_before(s: Seq<char>, q: char, k: nat) -> Option<int>
    decreases k,
{
    if k == 0 {
        None
    } else if s[k - 1] == q && !escaped_at(s, (k - 1) as nat) {
        Some(k - 1)
    } else {
        quote_before(s, q, (k - 1) as nat)
    }
}

/// Whether `c` may stand in a key that is not quoted.
pub open spec fn key_char(c: char) -> bool {
    ascii_alnum(c) || c == '_' || c == '-' || c == '.'
}

/// The start of the run of key characters that ends at `end`.
pub open spec fn run_start(s: Seq<char>, end: nat) -> nat
    decreases end,
{
    if end > 0 && key_char(s[end - 1]) {
        run_start(s, (end - 1) as nat)
    } else {
        end
    }
}

/// A key as it stands in raw text.
pub enum RawKeyView {
    /// A bare key, or the inside of one in single quotes.
    Plain(Seq<char>),
    /// A key in double quotes, with them: its text is what the JSON string denotes.
    Quoted(Seq<char>),
}

/// The key that is assigned to at position `i`.
pub open spec fn raw_key(s: Seq<char>, i: nat) -> Option<RawKeyView> {
    let end = end_before(s, i);
    if end == 0 {
        None
    } else if s[end - 1] == '\'' || s[end - 1] == '"' {
        match quote_before(s, s[end - 1], (end - 1) as nat) {
            Some(open) if key_boundary(s, open) => if s[end - 1] == '"' {
                Some(RawKeyView::Quoted(s.subrange(open, end as int)))
            } else {
                Some(RawKeyView::Plain(s.subrange(open + 1, end - 1)))
            },
            _ => None,
        }
    } else {
        let start = run_start(s, end);
        if start < end && key_boundary(s, start as int) {
            Some(RawKeyView::Plain(s.subrange(start as int, end as int)))
        } else {
            None
        }
    }
}

/// The text of a key in raw text.
pub open spec fn key_text(key: Option<RawKeyView>) -> Option<Seq<char>> {
    match key {
        Some(RawKeyView::Plain(text)) => Some(text),
        Some(RawKeyView::Quoted(text)) => match crate::outside::document_of(text) {
            Ok(JsonView::Text(decoded)) => Some(decoded),
            _ => None,
        },
        None => None,
    }
}

/// A key as it stands in raw text: whether it is in double quotes, and its characters.
#[derive(Debug, Clone)]
pub struct RawKey {
    pub quoted: bool,
    pub text: String,
}

impl View for RawKey {
    type V = RawKeyView;

    open spec fn view(&self) -> RawKeyView {
        if self.quoted {
            RawKeyView::Quoted(self.text@)
        } else {
            RawKeyView::Plain(self.text@)
        }
    }
}

proof fn spans_are_ordered(s: Seq<char>, i: nat, q: char)
    ensures
        end_before(s, i) <= i,
        run_start(s, i) <= i,
        quote_before(s, q, i) matches Some(p) ==> 0 <= p < i && s[p] == q,
    decreases i,
{
    if i > 0 {
        spans_are_ordered(s, (i - 1) as nat, q);
    }
}

/// Finds the key that is assigned to at position `assignment`.
pub fn raw_key_at(s: &Vec<char>, assignment: usize) -> (r: Option<RawKey>)
    requires
        assignment <= s@.len(),
    ensures
        match r {
            Some(key) => raw_key(s@, assignment as nat) == Some(key@),
            None => raw_key(s@, assignment as nat) is None,
        },
{
    let mut end: usize = assignment;
    while end > 0 && is_ascii_space(s[end - 1])
        invariant
            end <= assignment <= s@.len(),
            end_before(s@, assignment as nat) == end_before(s@, end as nat),
        decreases end,
    {
        end = end - 1;
    }
    if end == 0 {
        return None;
    }
    let closing = s[end - 1];
    if closing == '\'' || closing == '"' {
        let mut open: usize = end - 1;
        while open > 0 && !(s[open - 1] == closing && !quote_is_escaped(s, open - 1))
            invariant
                0 < end <= s@.len(),
                open <= end - 1,
                quote_before(s@, closing, (end - 1) as nat) == quote_before(
                    s@,
                    closing,
                    open as nat,
                ),
            decreases open,
        {
            open = open - 1;
        }
        if open == 0 {
            return None;
        }
        open = open - 1;
        if !raw_key_has_assignment_boundary(s, open) {
            return None;
        }
        if closing == '"' {
            Some(RawKey { quoted: true, text: text_of(s, open, end) })
        } else {
            Some(RawKey { quoted: false, text: text_of(s, open + 1, end - 1) })
        }
    } else {
        let mut start: usize = end;
        while start > 0 && (is_ascii_alnum(s[start - 1]) || s[start - 1] == '_' || s[start - 1]
            == '-' || s[start - 1] == '.')
            invariant
                start <= end <= s@.len(),
                run_start(s@, end as nat) == run_start(s@, start as nat),
            decreases start,
        {
            start = start - 1;
        }
        if start < end && raw_key_has_assignment_boundary(s, start) {
            Some(RawKey { quoted: false, text: text_of(s, start, end) })
        } else {
            None
        }
    }
}

/// The text of a located key, given what JSON makes of it where it is in double quotes.
pub fn decoded_key(key: &RawKey, decoded: &Result<Json, String>) -> (r: Option<String>)
    ensures
        match r {
            Some(text) => if key.quoted {
                decoded matches Ok(json) && json@ == JsonView::Text(text@)
            } else {
                text@ == key.text@
            },
            None => key.quoted && !(decoded matches Ok(json) && json@ is Text),
        },
{
    if !key.quoted {
        return Some(key.text.clone());
    }
    match decoded {
        Ok(json) => match json.as_str() {
            Some(text) => Some(text.to_owned()),
            None => None,
        },
        Err(_) => None,
    }
}

/// The text of the key that is assigned to at position `assignment`.
pub fn raw_key_before_assignment(s: &Vec<char>, assignment: usize) -> (r: Option<String>)
    requires
        assignment <= s@.len(),
    ensures
        match r {
            Some(text) => key_text(raw_key(s@, assignment as nat)) == Some(text@),
            None => key_text(raw_key(s@, assignment as nat)) is None,
        },
{
    match raw_key_at(s, assignment) {
        Some(key) => {
            let decoded = read_document(key.text.as_str());
            decoded_key(&key, &decoded)
        },
        None => None,
    }
}

/// Whether raw text assigns to a credential's name outside quotes.
pub open spec fn assigns_credential(s: Seq<char>) -> bool {
    exists|i: int|
        #[trigger] assignment_at(s, i) && (key_text(raw_key(s, i as nat)) matches Some(key)
            && credential_name(key))
}

/// Whether a text that is not JSON assigns to a credential's name.
pub fn scan_for_credential(text: &str) -> (b: bool)
    ensures
        b == assigns_credential(text@),
{
    let s = chars_of(text);
    let mut quote: Option<char> = None;
    let mut escaped = false;
    let mut i: usize = 0;
    while i < s.len()
        invariant
            i <= s@.len(),
            s@ == text@,
            scan_state(s@, i as nat) == (ScanState { quote, escaped }),
            forall|k: int|
                0 <= k < i && #[trigger] assignment_at(s@, k) ==> !(key_text(
                    raw_key(s@, k as nat),
                ) matches Some(key) && credential_name(key)),
        decreases s@.len() - i,
    {
        let c = s[i];
        assert(scan_state(s@, (i + 1) as nat) == scan_step(ScanState { quote, escaped }, c));
        match quote {
            Some(active) => {
                if escaped {
                    escaped = false;
                } else if c == '\\' {
                    escaped = true;
                } else if c == active {
                    quote = None;
                }
            },
            None => {
                if c == '\'' || c == '"' {
                    quote = Some(c);
                } else if c == ':' || c == '=' {
                    assert(assignment_at(s@, i as int));
                    if let Some(key) = raw_key_before_assignment(&s, i) {
                        if is_credential_field_name(key.as_str()) {
                            return true;
                        }
                    }
                }
            },
        }
        i = i + 1;
    }
    false
}

/// Whether a text holds a credential: JSON with such a member, or else raw text that assigns to
/// such a name.
pub open spec fn text_has_credential(text: Seq<char>) -> bool {
    match crate::outside::document_of(text) {
        Ok(json) => has_credential(json),
        Err(_) => assigns_credential(text),
    }
}

/// Whether a text holds a credential, in JSON or in shell or configuration syntax.
pub fn raw_text_contains_credential_field(text: &str) -> (b: bool)
    ensures
        b == text_has_credential(text@),
{
    match read_document(text) {
        Ok(json) => contains_credential_field(&json),
        Err(_) => scan_for_credential(text),
    }
}

/// Whether `c` is a control character other than the three that text may hold.
pub open spec fn forbidden_control(c: char) -> bool {
    (c <= '\u{1f}' || '\u{7f}' <= c <= '\u{9f}') && c != '\n' && c != '\r' && c != '\t'
}

/// The complaint about an editor's text, if there is one.
pub open spec fn editor_text_problem(label: Seq<char>, value: Seq<char>, max_bytes: nat) -> Option<
    StateProblem,
> {
    if vstd::utf8::encode_utf8(value).len() > max_bytes {
        Some(StateProblem::InvalidValue("draft "@ + label + " editor text is too large"@))
    } else if exists|i: int| 0 <= i < value.len() && forbidden_control(#[trigger] value[i]) {
        Some(
            StateProblem::InvalidValue(
                "draft "@ + label + " editor text contains unsupported control characters"@,
            ),
        )
    } else {
        None
    }
}

/// Checks the size and the characters of an editor's text.
pub fn validate_editor_text(label: &str, value: &str, max_bytes: usize) -> (r: Result<
    (),
    GuiStateError,
>)
    ensures
        match r {
            Ok(_) => editor_text_problem(label@, value@, max_bytes as nat) is None,
            Err(e) => editor_text_problem(label@, value@, max_bytes as nat) == Some(e@),
        },
{
    if value.as_bytes().len() > max_bytes {
        return Err(
            GuiStateError::InvalidValue(concat3("draft ", label, " editor text is too large")),
        );
    }
    let s = chars_of(value);
    let mut i: usize = 0;
    while i < s.len()
        invariant
            i <= s@.len(),
            s@ == value@,
            vstd::utf8::encode_utf8(value@).len() <= max_bytes,
            forall|k: int| 0 <= k < i ==> !forbidden_control(#[trigger] s@[k]),
        decreases s@.len() - i,
    {
        let c = s[i];
        if (c <= '\u{1f}' || ('\u{7f}' <= c && c <= '\u{9f}')) && c != '\n' && c != '\r' && c
            != '\t' {
            assert(forbidden_control(value@[i as int]));
            return Err(
                GuiStateError::InvalidValue(
                    concat3(
                        "draft ",
                        label,
                        " editor text contains unsupported control characters",
                    ),
                ),
            );
        }
        i = i + 1;
    }
    Ok(())
}

/// The text of one schema editor field.
#[derive(Clone)]
pub struct SchemaText {
    pub name: String,
    pub value: String,
}

/// The exact text that the editor's widgets hold, which may be invalid for a while.
#[derive(Clone)]
pub struct DraftEditorState {
    pub seed_text: String,
    pub advanced_json_text: String,
    /// Sorted by name, each name once.
    pub schema_text: Vec<SchemaText>,
}

/// The complaint about one schema editor field, if there is one.
pub open spec fn schema_text_problem(entry: SchemaText) -> Option<StateProblem> {
    if let Some(p) = editor_text_problem("schema field name"@, entry.name@, 512) {
        Some(p)
    } else if let Some(p) = editor_text_problem("schema field value"@, entry.value@, 65536) {
        Some(p)
    } else if crate::text::trimmed(entry.name@).len() == 0 {
        Some(StateProblem::InvalidValue("draft schema editor field name cannot be empty"@))
    } else if credential_name(entry.name@) || text_has_credential(entry.value@) {
        Some(StateProblem::CredentialInDraft)
    } else {
        None
    }
}

/// The first complaint about the schema editor fields, if there is one.
pub open spec fn schema_texts_problem(entries: Seq<SchemaText>) -> Option<StateProblem>
    decreases entries.len(),
{
    if entries.len() == 0 {
        None
    } else if let Some(p) = schema_texts_problem(entries.drop_last()) {
        Some(p)
    } else {
        schema_text_problem(entries.last())
    }
}

/// The first complaint about the editor's text, if there is one.
pub open spec fn editor_problem(state: DraftEditorState) -> Option<StateProblem> {
    if let Some(p) = editor_text_problem("seed"@, state.seed_text@, 1024) {
        Some(p)
    } else if let Some(p) = editor_text_problem(
        "advanced JSON"@,
        state.advanced_json_text@,
        524288,
    ) {
        Some(p)
    } else if state.schema_text@.len() > MAX_SCHEMA_TEXT_FIELDS {
        Some(StateProblem::InvalidValue("draft has too many schema editor fields"@))
    } else if text_has_credential(state.seed_text@) || text_has_credential(
        state.advanced_json_text@,
    ) {
        Some(StateProblem::CredentialInDraft)
    } else {
        schema_texts_problem(state.schema_text@)
    }
}

/// Whether any of the editor's text holds the non-empty `secret`.
pub open spec fn editor_holds(state: DraftEditorState, secret: Seq<char>) -> bool {
    secret.len() > 0 && (crate::text::occurs(state.seed_text@, secret) || crate::text::occurs(
        state.advanced_json_text@,
        secret,
    ) || exists|i: int|
        0 <= i < state.schema_text@.len() && (crate::text::occurs((#[trigger] state.schema_text@[i]).name@, secret)
            || crate::text::occurs(state.schema_text@[i].value@, secret)))
}

proof fn schema_texts_problem_prefix(entries: Seq<SchemaText>, n: int)
    requires
        0 <= n <= entries.len(),
        schema_texts_problem(entries.take(n)) is Some,
    ensures
        schema_texts_problem(entries) == schema_texts_problem(entries.take(n)),
    decreases entries.len() - n,
{
    if n < entries.len() {
        assert(entries.take(n + 1).drop_last() =~= entries.take(n));
        schema_texts_problem_prefix(entries, n + 1);
    } else {
        assert(entries.take(n) =~= entries);
    }
}

fn validate_schema_text(entry: &SchemaText) -> (r: Result<(), GuiStateError>)
    ensures
        match r {
            Ok(_) => schema_text_problem(*entry) is None,
            Err(e) => schema_text_problem(*entry) == Some(e@),
        },
{
    validate_editor_text("schema field name", entry.name.as_str(), MAX_SCHEMA_FIELD_NAME_BYTES)?;
    validate_editor_text("schema field value", entry.value.as_str(), MAX_SCHEMA_TEXT_VALUE_BYTES)?;
    if trim_text(entry.name.as_str()).is_empty() {
        return Err(invalid("draft schema editor field name cannot be empty"));
    }
    if is_credential_field_name(entry.name.as_str()) || raw_text_contains_credential_field(
        entry.value.as_str(),
    ) {
        return Err(GuiStateError::CredentialInDraft);
    }
    Ok(())
}

impl DraftEditorState {
    /// The state as it may be logged: what was typed is left out.
    pub fn debug_text(&self) -> (s: String)
        ensures
            s@ == "DraftEditorState { seed_text: \"[REDACTED]\", advanced_json_text: \"[REDACTED]\", schema_text_fields: "@
                + crate::text::numeral(self.schema_text@.len()) + " }"@,
    {
        let numeral = decimal(self.schema_text.len() as u64);
        concat3(
            "DraftEditorState { seed_text: \"[REDACTED]\", advanced_json_text: \"[REDACTED]\", schema_text_fields: ",
            numeral.as_str(),
            " }",
        )
    }

    /// Checks that the text is of bearable size, free of control characters and free of
    /// credentials.
    pub fn validate(&self) -> (r: Result<(), GuiStateError>)
        ensures
            match r {
                Ok(_) => editor_problem(*self) is None,
                Err(e) => editor_problem(*self) == Some(e@),
            },
    {
        validate_editor_text("seed", self.seed_text.as_str(), MAX_SEED_TEXT_BYTES)?;
        validate_editor_text(
            "advanced JSON",
            self.advanced_json_text.as_str(),
            MAX_ADVANCED_JSON_TEXT_BYTES,
        )?;
        if self.schema_text.len() > MAX_SCHEMA_TEXT_FIELDS {
            return Err(invalid("draft has too many schema editor fields"));
        }
        if raw_text_contains_credential_field(self.seed_text.as_str())
            || raw_text_contains_credential_field(self.advanced_json_text.as_str()) {
            return Err(GuiStateError::CredentialInDraft);
        }
        let ghost entries = self.schema_text@;
        let mut i: usize = 0;
        assert(entries.take(0) =~= Seq::<SchemaText>::empty());
        while i < self.schema_text.len()
            invariant
                i <= self.schema_text@.len(),
                entries == self.schema_text@,
                schema_texts_problem(entries.take(i as int)) is None,
                editor_problem(*self) == schema_texts_problem(entries),
            decreases self.schema_text@.len() - i,
        {
            assert(entries.take(i + 1).drop_last() =~= entries.take(i as int));
            match validate_schema_text(&self.schema_text[i]) {
                Ok(_) => {},
                Err(e) => {
                    proof {
                        schema_texts_problem_prefix(entries, i + 1);
                    }
                    return Err(e);
                },
            }
            i = i + 1;
        }
        assert(entries.take(entries.len() as int) =~= entries);
        Ok(())
    }

    /// Whether any of the text holds `secret`. An empty secret is held by none.
    pub fn contains_secret(&self, secret: &str) -> (b: bool)
        ensures
            b == editor_holds(*self, secret@),
    {
        if secret.is_empty() {
            return false;
        }
        if contains_text(self.seed_text.as_str(), secret) || contains_text(
            self.advanced_json_text.as_str(),
            secret,
        ) {
            return true;
        }
        let mut i: usize = 0;
        while i < self.schema_text.len()
            invariant
                i <= self.schema_text@.len(),
                secret@.len() > 0,
                forall|k: int|
                    0 <= k < i ==> !crate::text::occurs((#[trigger] self.schema_text@[k]).name@, secret@)
                        && !crate::text::occurs(self.schema_text@[k].value@, secret@),
            decreases self.schema_text@.len() - i,
        {
            if contains_text(self.schema_text[i].name.as_str(), secret) || contains_text(
                self.schema_text[i].value.as_str(),
                secret,
            ) {
                return true;
            }
            i = i + 1;
        }
        false
    }
}

/// Text with runs of white space reduced to one space each and none left at either end.
pub open spec fn squeezed(s: Seq<char>) -> Seq<char>
    decreases s.len(),
{
    if s.len() == 0 {
        s
    } else {
        let before = squeezed(s.drop_last());
        let c = s.last();
        if crate::text::white_space(c) {
            before
        } else if s.len() > 1 && crate::text::white_space(s[s.len() - 2]) && before.len() > 0 {
            before.push(' ').push(c)
        } else {
            before.push(c)
        }
    }
}

proof fn squeezed_ends_in_text(s: Seq<char>)
    ensures
        squeezed(s).len() > 0 ==> !crate::text::white_space(squeezed(s).last()),
    decreases s.len(),
{
    if s.len() > 0 {
        squeezed_ends_in_text(s.drop_last());
    }
}

/// Squeezing a text twice gives what squeezing it once gives.
pub proof fn squeezed_idempotent(s: Seq<char>)
    ensures
        squeezed(squeezed(s)) == squeezed(s),
    decreases s.len(),
{
    if s.len() > 0 {
        let before = squeezed(s.drop_last());
        let c = s.last();
        squeezed_idempotent(s.drop_last());
        squeezed_ends_in_text(s.drop_last());
        if !crate::text::white_space(c) {
            if s.len() > 1 && crate::text::white_space(s[s.len() - 2]) && before.len() > 0 {
                let spaced = before.push(' ');
                assert(spaced.drop_last() =~= before);
                assert(squeezed(spaced) == before);
                assert(spaced.push(c).drop_last() =~= spaced);
                assert(spaced.push(c)[spaced.push(c).len() - 2] == ' ');
            } else {
                assert(before.push(c).drop_last() =~= before);
                if before.len() > 0 {
                    assert(before.push(c)[before.push(c).len() - 2] == before.last());
                }
            }
        }
    }
}

/// Reduces runs of white space to one space each and drops them at the ends.
pub fn squeeze(text: &str) -> (r: String)
    ensures
        r@ == squeezed(text@),
{
    let s = chars_of(text);
    let mut r = String::new();
    let mut filled = false;
    let mut i: usize = 0;
    assert(s@.take(0) =~= Seq::<char>::empty());
    while i < s.len()
        invariant
            i <= s@.len(),
            s@ == text@,
            r@ == squeezed(s@.take(i as int)),
            filled == (r@.len() > 0),
        decreases s@.len() - i,
    {
        let c = s[i];
        assert(s@.take(i + 1).drop_last() =~= s@.take(i as int));
        if !is_white_space(c) {
            if i > 0 && is_white_space(s[i - 1]) && filled {
                assert(s@.take(i + 1)[i - 1] == s@[i - 1]);
                r.push(' ');
            }
            r.push(c);
            filled = true;
        }
        i = i + 1;
    }
    assert(s@.take(s@.len() as int) =~= s@);
    r
}

/// A text up to composition and white space.
pub open spec fn canonical(text: Seq<char>) -> Seq<char> {
    squeezed(crate::outside::nfc_of(text))
}

/// A text up to composition and white space.
pub fn canonical_text(value: &str) -> (r: String)
    ensures
        r@ == canonical(value@),
{
    let composed = nfc(value);
    squeeze(composed.as_str())
}

/// A document up to composition and white space of its texts and composition of its keys.
pub open spec fn canonical_document(json: JsonView) -> JsonView
    decreases json, 1nat,
{
    match json {
        JsonView::Object(members) => JsonView::Object(canonical_members(members)),
        JsonView::Array(items) => JsonView::Array(canonical_items(items)),
        JsonView::Text(text) => JsonView::Text(canonical(text)),
        other => other,
    }
}

/// The canonical forms of some documents.
pub open spec fn canonical_items(items: Seq<JsonView>) -> Seq<JsonView>
    decreases items, 0nat,
{
    if items.len() == 0 {
        Seq::empty()
    } else {
        canonical_items(items.drop_last()).push(canonical_document(items.last()))
    }
}

/// The canonical forms of some members, sorted by key; of equal keys the last one counts.
pub open spec fn canonical_members(members: Seq<(Seq<char>, JsonView)>) -> Seq<
    (Seq<char>, JsonView),
>
    decreases members, 0nat,
{
    if members.len() == 0 {
        Seq::empty()
    } else {
        proof {
            assert(decreases_to!(members => members.last()));
            assert(decreases_to!(members.last() => members.last().1));
        }
        crate::json::inserted(
            canonical_members(members.drop_last()),
            crate::outside::nfc_of(members.last().0),
            canonical_document(members.last().1),
        )
    }
}

/// The members of a canonical object are sorted by key, whatever the order they came in.
pub proof fn canonical_members_sorted(members: Seq<(Seq<char>, JsonView)>)
    ensures
        crate::json::sorted_keys(canonical_members(members)),
    decreases members.len(),
{
    if members.len() > 0 {
        canonical_members_sorted(members.drop_last());
        crate::json::inserted_sorted(
            canonical_members(members.drop_last()),
            crate::outside::nfc_of(members.last().0),
            canonical_document(members.last().1),
        );
    }
}

/// Whether no two keys are the same up to composition.
pub open spec fn keys_apart(members: Seq<(Seq<char>, JsonView)>) -> bool {
    forall|i: int, j: int|
        0 <= i < j < members.len() ==> crate::outside::nfc_of((#[trigger] members[i]).0)
            != crate::outside::nfc_of((#[trigger] members[j]).0)
}

/// Whether two documents differ at most in the order of their members, in the composition of their
/// keys and in the composition and the white space of their texts.
pub open spec fn cosmetically_same(a: JsonView, b: JsonView) -> bool
    decreases a,
{
    match (a, b) {
        (JsonView::Text(x), JsonView::Text(y)) => canonical(x) == canonical(y),
        (JsonView::Array(x), JsonView::Array(y)) => x.len() == y.len() && forall|i: int|
            0 <= i < x.len() ==> cosmetically_same(#[trigger] x[i], y[i]),
        (JsonView::Object(x), JsonView::Object(y)) => {
            &&& keys_apart(x)
            &&& keys_apart(y)
            &&& forall|i: int|
                0 <= i < x.len() ==> exists|j: int|
                    0 <= j < y.len() && crate::outside::nfc_of((#[trigger] x[i]).0)
                        == crate::outside::nfc_of((#[trigger] y[j]).0) && cosmetically_same(
                        x[i].1,
                        y[j].1,
                    )
            &&& forall|j: int|
                0 <= j < y.len() ==> exists|i: int|
                    0 <= i < x.len() && crate::outside::nfc_of((#[trigger] x[i]).0)
                        == crate::outside::nfc_of((#[trigger] y[j]).0)
        },
        _ => a == b,
    }
}

/// What a canonical object has under each key.
proof fn canonical_lookup(members: Seq<(Seq<char>, JsonView)>, key: Seq<char>)
    requires
        keys_apart(members),
    ensures
        forall|i: int|
            0 <= i < members.len() && crate::outside::nfc_of((#[trigger] members[i]).0) == key
                ==> crate::json::lookup(canonical_members(members), key) == Some(
                canonical_document(members[i].1),
            ),
        (forall|i: int|
            0 <= i < members.len() ==> crate::outside::nfc_of((#[trigger] members[i]).0) != key)
            ==> crate::json::lookup(canonical_members(members), key) is None,
    decreases members.len(),
{
    if members.len() > 0 {
        let before = members.drop_last();
        assert forall|i: int, j: int| 0 <= i < j < before.len() implies crate::outside::nfc_of(
            (#[trigger] before[i]).0,
        ) != crate::outside::nfc_of((#[trigger] before[j]).0) by {
            assert(before[i] == members[i] && before[j] == members[j]);
        }
        canonical_lookup(before, key);
        canonical_members_sorted(before);
        let last = members.last();
        crate::json::inserted_lookup(
            canonical_members(before),
            crate::outside::nfc_of(last.0),
            canonical_document(last.1),
            key,
        );
        assert forall|i: int|
            0 <= i < members.len() && crate::outside::nfc_of((#[trigger] members[i]).0)
                == key implies crate::json::lookup(canonical_members(members), key) == Some(
            canonical_document(members[i].1),
        ) by {
            if i < before.len() {
                assert(before[i] == members[i]);
            }
        }
        if forall|i: int|
            0 <= i < members.len() ==> crate::outside::nfc_of((#[trigger] members[i]).0) != key {
            assert forall|i: int| 0 <= i < before.len() implies crate::outside::nfc_of(
                (#[trigger] before[i]).0,
            ) != key by {
                assert(before[i] == members[i]);
            }
        }
    }
}

proof fn canonical_item(items: Seq<JsonView>, i: int)
    requires
        0 <= i < items.len(),
    ensures
        canonical_items(items).len() == items.len(),
        canonical_items(items)[i] == canonical_document(items[i]),
    decreases items.len(),
{
    if i < items.len() - 1 {
        canonical_item(items.drop_last(), i);
    } else if items.len() > 1 {
        canonical_item(items.drop_last(), 0);
    } else {
        assert(canonical_items(items.drop_last()).len() == 0);
    }
}

/// Whether two members are the same in canonical form.
spec fn same_member(a: (Seq<char>, JsonView), b: (Seq<char>, JsonView)) -> bool {
    crate::outside::nfc_of(a.0) == crate::outside::nfc_of(b.0) && canonical_document(a.1)
        == canonical_document(b.1)
}

proof fn canonical_members_ignore_order(
    x: Seq<(Seq<char>, JsonView)>,
    y: Seq<(Seq<char>, JsonView)>,
)
    requires
        keys_apart(x),
        keys_apart(y),
        forall|i: int|
            0 <= i < x.len() ==> exists|j: int|
                0 <= j < y.len() && same_member(#[trigger] x[i], #[trigger] y[j]),
        forall|j: int|
            0 <= j < y.len() ==> exists|i: int|
                0 <= i < x.len() && crate::outside::nfc_of((#[trigger] x[i]).0)
                    == crate::outside::nfc_of((#[trigger] y[j]).0),
    ensures
        canonical_members(x) == canonical_members(y),
{
    assert forall|key: Seq<char>| #[trigger]
        crate::json::lookup(canonical_members(x), key) == crate::json::lookup(
            canonical_members(y),
            key,
        ) by {
        canonical_lookup(x, key);
        canonical_lookup(y, key);
        if exists|i: int|
            0 <= i < x.len() && crate::outside::nfc_of((#[trigger] x[i]).0) == key {
            let i = choose|i: int|
                0 <= i < x.len() && crate::outside::nfc_of((#[trigger] x[i]).0) == key;
            let j = choose|j: int| 0 <= j < y.len() && same_member(x[i], #[trigger] y[j]);
            assert(crate::outside::nfc_of(y[j].0) == key);
        } else {
            assert forall|j: int| 0 <= j < y.len() implies crate::outside::nfc_of(
                (#[trigger] y[j]).0,
            ) != key by {
                let i = choose|i: int|
                    0 <= i < x.len() && crate::outside::nfc_of((#[trigger] x[i]).0)
                        == crate::outside::nfc_of(y[j].0);
                assert(crate::outside::nfc_of(x[i].0) != key);
            }
        }
    }
    canonical_members_sorted(x);
    canonical_members_sorted(y);
    crate::json::sorted_members_equal(canonical_members(x), canonical_members(y));
}

/// The order of members, the composition of keys and texts and the white space of texts make no
/// difference to a canonical document.
pub proof fn canonical_documents_ignore_cosmetics(a: JsonView, b: JsonView)
    requires
        cosmetically_same(a, b),
    ensures
        canonical_document(a) == canonical_document(b),
    decreases a,
{
    match (a, b) {
        (JsonView::Array(x), JsonView::Array(y)) => {
            if x.len() > 0 {
                canonical_item(x, 0);
                canonical_item(y, 0);
            }
            assert forall|i: int| 0 <= i < x.len() implies canonical_items(x)[i]
                == canonical_items(y)[i] by {
                canonical_item(x, i);
                canonical_item(y, i);
                canonical_documents_ignore_cosmetics(x[i], y[i]);
            }
            assert(canonical_items(x) =~= canonical_items(y));
        },
        (JsonView::Object(x), JsonView::Object(y)) => {
            assert forall|i: int| 0 <= i < x.len() implies exists|j: int|
                0 <= j < y.len() && same_member(#[trigger] x[i], #[trigger] y[j]) by {
                let j = choose|j: int|
                    0 <= j < y.len() && crate::outside::nfc_of(x[i].0) == crate::outside::nfc_of(
                        (#[trigger] y[j]).0,
                    ) && cosmetically_same(x[i].1, y[j].1);
                assert(decreases_to!(x => x[i]));
                canonical_documents_ignore_cosmetics(x[i].1, y[j].1);
                assert(same_member(x[i], y[j]));
            }
            canonical_members_ignore_order(x, y);
        },
        _ => {},
    }
}

/// A document up to composition and white space.
pub fn canonical_json(value: &Json) -> (r: Json)
    ensures
        r@ == canonical_document(value@),
    decreases value@,
{
    broadcast use crate::json::array_view, crate::json::object_view;

    match value {
        Json::Object(members) => {
            let ghost view = crate::json::members_view(members@);
            let mut sorted: Vec<Member> = Vec::new();
            let mut i: usize = 0;
            assert(view.take(0) =~= Seq::<(Seq<char>, JsonView)>::empty());
            assert(crate::json::members_view(sorted@) =~= Seq::<(Seq<char>, JsonView)>::empty());
            while i < members.len()
                invariant
                    i <= members@.len(),
                    view == crate::json::members_view(members@),
                    value@ == JsonView::Object(view),
                    crate::json::members_view(sorted@) == canonical_members(view.take(i as int)),
                decreases members@.len() - i,
            {
                assert(decreases_to!(value@ => value@->Object_0));
                assert(decreases_to!(value@->Object_0 => view[i as int]));
                assert(decreases_to!(view[i as int] => view[i as int].1));
                assert(view[i as int] == (members@[i as int].key@, members@[i as int].value@));
                assert(view.take(i + 1).drop_last() =~= view.take(i as int));
                let key = nfc(members[i].key.as_str());
                let item = canonical_json(&members[i].value);
                insert_member(&mut sorted, key, item);
                i = i + 1;
            }
            assert(view.take(view.len() as int) =~= view);
            Json::Object(sorted)
        },
        Json::Array(items) => {
            let ghost view = crate::json::items_view(items@);
            let mut list: Vec<Json> = Vec::new();
            let mut i: usize = 0;
            assert(view.take(0) =~= Seq::<JsonView>::empty());
            assert(crate::json::items_view(list@) =~= Seq::<JsonView>::empty());
            while i < items.len()
                invariant
                    i <= items@.len(),
                    view == crate::json::items_view(items@),
                    value@ == JsonView::Array(view),
                    list@.len() == i,
                    crate::json::items_view(list@) == canonical_items(view.take(i as int)),
                decreases items@.len() - i,
            {
                assert(decreases_to!(value@ => value@->Array_0));
                assert(decreases_to!(value@->Array_0 => view[i as int]));
                assert(view[i as int] == items@[i as int]@);
                assert(view.take(i + 1).drop_last() =~= view.take(i as int));
                let ghost before = crate::json::items_view(list@);
                list.push(canonical_json(&items[i]));
                assert(crate::json::items_view(list@) =~= before.push(list@[i as int]@));
                i = i + 1;
            }
            assert(view.take(view.len() as int) =~= view);
            Json::Array(list)
        },
        Json::Text(text) => Json::Text(canonical_text(text.as_str())),
        other => crate::json::copy_json(other),
    }
}

/// The name under which a role enters a fingerprint.
pub open spec fn role_name(role: MediaRole) -> Seq<char> {
    match role {
        MediaRole::StartFrame => "start_frame"@,
        MediaRole::EndFrame => "end_frame"@,
        MediaRole::Reference => "reference"@,
        MediaRole::VideoInput => "video_input"@,
        MediaRole::AudioInput => "audio_input"@,
    }
}

fn role_text(role: MediaRole) -> (s: &'static str)
    ensures
        s@ == role_name(role),
{
    match role {
        MediaRole::StartFrame => "start_frame",
        MediaRole::EndFrame => "end_frame",
        MediaRole::Reference => "reference",
        MediaRole::VideoInput => "video_input",
        MediaRole::AudioInput => "audio_input",
    }
}

/// What of a media item enters a fingerprint. A local file enters by `identity`, its resolved
/// path, and never by its bytes.
pub open spec fn media_document(media: DraftMedia, identity: Seq<char>) -> JsonView {
    JsonView::Object(
        seq![
            ("role"@, JsonView::Text(role_name(media.role))),
            (
                "source"@,
                match media.source {
                    MediaSource::LocalFile { .. } => JsonView::Object(
                        seq![
                            ("kind"@, JsonView::Text("local_file"@)),
                            ("path_identity"@, JsonView::Text(crate::outside::nfc_of(identity))),
                        ],
                    ),
                    MediaSource::RemoteUrl { url } => JsonView::Object(
                        seq![
                            ("kind"@, JsonView::Text("remote_url"@)),
                            ("url"@, JsonView::Text(canonical(url@))),
                        ],
                    ),
                },
            ),
        ],
    )
}

/// An optional text in canonical form.
pub open spec fn optional_text(text: Option<String>) -> JsonView {
    match text {
        Some(t) => JsonView::Text(canonical(t@)),
        None => JsonView::Null,
    }
}

/// Everything of a draft that its fingerprint covers.
pub open spec fn fingerprint_document(draft: GenerationDraft, identities: Seq<String>) -> JsonView {
    JsonView::Object(
        seq![
            (
                "adapter_options"@,
                match draft.adapter_options {
                    Some(options) => canonical_document(options@),
                    None => JsonView::Null,
                },
            ),
            ("aspect_ratio"@, optional_text(draft.aspect_ratio)),
            (
                "duration"@,
                match draft.duration {
                    Some(seconds) => JsonView::Number(crate::outside::number_of(seconds as i64)),
                    None => JsonView::Null,
                },
            ),
            ("fingerprint_version"@, JsonView::Number(crate::outside::number_of(1))),
            (
                "generate_audio"@,
                match draft.generate_audio {
                    Some(on) => JsonView::Bool(on),
                    None => JsonView::Null,
                },
            ),
            (
                "media"@,
                JsonView::Array(
                    Seq::new(
                        draft.media@.len(),
                        |i: int| media_document(draft.media@[i], identities[i]@),
                    ),
                ),
            ),
            ("model"@, JsonView::Text(canonical(draft.model@))),
            ("prompt"@, JsonView::Text(canonical(draft.prompt@))),
            ("provider_id"@, JsonView::Text(draft.provider_id@)),
            ("resolution"@, optional_text(draft.resolution)),
            (
                "seed"@,
                match draft.seed {
                    Some(seed) => JsonView::Number(crate::outside::number_of(seed)),
                    None => JsonView::Null,
                },
            ),
            ("size"@, optional_text(draft.size)),
        ],
    )
}

fn object2(first: Member, second: Member) -> (json: Json)
    ensures
        json@ == JsonView::Object(
            seq![(first.key@, first.value@), (second.key@, second.value@)],
        ),
{
    broadcast use crate::json::object_view;

    let mut members: Vec<Member> = Vec::new();
    members.push(first);
    members.push(second);
    assert(crate::json::members_view(members@) =~= seq![
        (first.key@, first.value@),
        (second.key@, second.value@),
    ]);
    Json::Object(members)
}

fn text_json(text: &Option<String>) -> (json: Json)
    ensures
        json@ == optional_text(*text),
{
    match text {
        Some(t) => Json::Text(canonical_text(t.as_str())),
        None => Json::Null,
    }
}

fn media_json(media: &DraftMedia, identity: &str) -> (json: Json)
    ensures
        json@ == media_document(*media, identity@),
{
    let source = match &media.source {
        MediaSource::LocalFile { .. } => object2(
            member("kind", Json::Text("local_file".to_owned())),
            member("path_identity", Json::Text(nfc(identity))),
        ),
        MediaSource::RemoteUrl { url } => object2(
            member("kind", Json::Text("remote_url".to_owned())),
            member("url", Json::Text(canonical_text(url.as_str()))),
        ),
    };
    let json = object2(
        member("role", Json::Text(role_text(media.role).to_owned())),
        member("source", source),
    );
    proof {
        let expected = media_document(*media, identity@);
        assert(source@->Object_0 =~= expected->Object_0[1].1->Object_0);
        assert(json@->Object_0 =~= expected->Object_0);
    }
    json
}

/// Assembles what a draft's fingerprint covers. `identities` holds the resolved path of each media
/// item that is a local file.
pub fn draft_document(draft: &GenerationDraft, identities: &Vec<String>) -> (json: Json)
    requires
        identities@.len() == draft.media@.len(),
    ensures
        json@ == fingerprint_document(*draft, identities@),
{
    broadcast use crate::json::array_view, crate::json::object_view;

    let mut media: Vec<Json> = Vec::new();
    let mut i: usize = 0;
    while i < draft.media.len()
        invariant
            i <= draft.media@.len(),
            identities@.len() == draft.media@.len(),
            media@.len() == i,
            forall|k: int|
                0 <= k < i ==> (#[trigger] media@[k])@ == media_document(
                    draft.media@[k],
                    identities@[k]@,
                ),
        decreases draft.media@.len() - i,
    {
        media.push(media_json(&draft.media[i], identities[i].as_str()));
        i = i + 1;
    }
    let ghost media_views = Seq::new(
        draft.media@.len(),
        |i: int| media_document(draft.media@[i], identities@[i]@),
    );
    assert(crate::json::items_view(media@) =~= media_views);
    let options = match &draft.adapter_options {
        Some(options) => canonical_json(options),
        None => Json::Null,
    };
    let duration = match draft.duration {
        Some(seconds) => Json::Number(integer(seconds as i64)),
        None => Json::Null,
    };
    let audio = match draft.generate_audio {
        Some(on) => Json::Bool(on),
        None => Json::Null,
    };
    let seed = match draft.seed {
        Some(seed) => Json::Number(integer(seed)),
        None => Json::Null,
    };
    let mut members: Vec<Member> = Vec::new();
    members.push(member("adapter_options", options));
    members.push(member("aspect_ratio", text_json(&draft.aspect_ratio)));
    members.push(member("duration", duration));
    members.push(member("fingerprint_version", Json::Number(integer(1))));
    members.push(member("generate_audio", audio));
    members.push(member("media", Json::Array(media)));
    members.push(member("model", Json::Text(canonical_text(draft.model.as_str()))));
    members.push(member("prompt", Json::Text(canonical_text(draft.prompt.as_str()))));
    members.push(member("provider_id", Json::Text(draft.provider_id.as_str().to_owned())));
    members.push(member("resolution", text_json(&draft.resolution)));
    members.push(member("seed", seed));
    members.push(member("size", text_json(&draft.size)));
    let json = Json::Object(members);
    assert(json@->Object_0 =~= fingerprint_document(*draft, identities@)->Object_0);
    json
}

/// The lower-case hexadecimal digit of a number below sixteen.
pub open spec fn hex_digit(n: nat) -> char {
    if n < 10 {
        (n + 48) as char
    } else {
        (n + 87) as char
    }
}

/// Bytes in lower-case hexadecimal.
pub open spec fn hex(bytes: Seq<u8>) -> Seq<char>
    decreases bytes.len(),
{
    if bytes.len() == 0 {
        Seq::empty()
    } else {
        hex(bytes.drop_last()).push(hex_digit((bytes.last() / 16) as nat)).push(
            hex_digit((bytes.last() % 16) as nat),
        )
    }
}

fn hex_digit_char(n: u8) -> (c: char)
    requires
        n < 16,
    ensures
        c == hex_digit(n as nat),
{
    if n < 10 {
        (n + 48u8) as char
    } else {
        (n + 87u8) as char
    }
}

/// Writes bytes in lower-case hexadecimal.
pub fn hex_text(bytes: &Vec<u8>) -> (s: String)
    ensures
        s@ == hex(bytes@),
{
    let mut s = String::new();
    let mut i: usize = 0;
    assert(bytes@.take(0) =~= Seq::<u8>::empty());
    while i < bytes.len()
        invariant
            i <= bytes@.len(),
            s@ == hex(bytes@.take(i as int)),
        decreases bytes@.len() - i,
    {
        assert(bytes@.take(i + 1).drop_last() =~= bytes@.take(i as int));
        s.push(hex_digit_char(bytes[i] / 16));
        s.push(hex_digit_char(bytes[i] % 16));
        i = i + 1;
    }
    assert(bytes@.take(bytes@.len() as int) =~= bytes@);
    s
}

/// Whether `c` is a lower-case hexadecimal digit.
pub open spec fn lower_hex(c: char) -> bool {
    '0' <= c <= '9' || 'a' <= c <= 'f'
}

/// Whether `s` is a SHA-256 digest in lower-case hexadecimal.
pub open spec fn is_fingerprint(s: Seq<char>) -> bool {
    s.len() == 64 && forall|i: int| 0 <= i < s.len() ==> lower_hex(#[trigger] s[i])
}

proof fn hex_is_lower_hex(bytes: Seq<u8>)
    ensures
        hex(bytes).len() == 2 * bytes.len(),
        forall|i: int| 0 <= i < hex(bytes).len() ==> lower_hex(#[trigger] hex(bytes)[i]),
    decreases bytes.len(),
{
    if bytes.len() > 0 {
        hex_is_lower_hex(bytes.drop_last());
        let before = hex(bytes.drop_last());
        assert forall|i: int| 0 <= i < hex(bytes).len() implies lower_hex(
            #[trigger] hex(bytes)[i],
        ) by {
            if i < before.len() {
                assert(hex(bytes)[i] == before[i]);
            }
        }
    }
}

/// The fingerprint of a document.
pub open spec fn fingerprint_of(json: JsonView) -> Seq<char> {
    hex(crate::outside::sha256_of(vstd::utf8::encode_utf8(crate::outside::rendering_of(json))))
}

/// The digest of a document in hexadecimal.
pub fn fingerprint_value(value: &Json) -> (s: String)
    ensures
        s@ == fingerprint_of(value@),
        is_fingerprint(s@),
{
    let text = render(value);
    let digest = sha256(text.as_str().as_bytes());
    proof {
        hex_is_lower_hex(digest@);
    }
    hex_text(&digest)
}

/// A digest of everything of a draft that is billed. It ignores the order of JSON members, the
/// composition of characters and white space; local files enter by their resolved path.
pub fn generation_draft_fingerprint(draft: &GenerationDraft, identities: &Vec<String>) -> (s: String)
    requires
        identities@.len() == draft.media@.len(),
    ensures
        s@ == fingerprint_of(fingerprint_document(*draft, identities@)),
        is_fingerprint(s@),
{
    let document = draft_document(draft, identities);
    fingerprint_value(&document)
}

/// Whether two optional texts are the same up to composition and white space.
pub open spec fn texts_alike(a: Option<String>, b: Option<String>) -> bool {
    match (a, b) {
        (Some(x), Some(y)) => canonical(x@) == canonical(y@),
        (None, None) => true,
        _ => false,
    }
}

/// Whether two media items have the same role and lead to the same place: files by the identity of
/// their paths, URLs up to composition and white space.
pub open spec fn media_alike(
    a: DraftMedia,
    a_identity: Seq<char>,
    b: DraftMedia,
    b_identity: Seq<char>,
) -> bool {
    a.role == b.role && match (a.source, b.source) {
        (MediaSource::LocalFile { .. }, MediaSource::LocalFile { .. }) => crate::outside::nfc_of(
            a_identity,
        ) == crate::outside::nfc_of(b_identity),
        (MediaSource::RemoteUrl { url: x }, MediaSource::RemoteUrl { url: y }) => canonical(x@)
            == canonical(y@),
        _ => false,
    }
}

proof fn alike_media_document(
    a: DraftMedia,
    a_identity: Seq<char>,
    b: DraftMedia,
    b_identity: Seq<char>,
)
    requires
        media_alike(a, a_identity, b, b_identity),
    ensures
        media_document(a, a_identity) == media_document(b, b_identity),
{
    let left = media_document(a, a_identity)->Object_0;
    let right = media_document(b, b_identity)->Object_0;
    assert(left[1].1->Object_0 =~= right[1].1->Object_0);
    assert(left =~= right);
}

/// The fingerprint of a draft does not change with the order of the members of its options, nor
/// with the composition and the white space of its texts; files count by the identity of their
/// paths.
pub proof fn fingerprint_ignores_cosmetic_edits(
    draft: GenerationDraft,
    identities: Seq<String>,
    edited: GenerationDraft,
    edited_identities: Seq<String>,
)
    requires
        draft.provider_id@ == edited.provider_id@,
        canonical(draft.model@) == canonical(edited.model@),
        canonical(draft.prompt@) == canonical(edited.prompt@),
        draft.duration == edited.duration,
        texts_alike(draft.resolution, edited.resolution),
        texts_alike(draft.aspect_ratio, edited.aspect_ratio),
        texts_alike(draft.size, edited.size),
        draft.generate_audio == edited.generate_audio,
        draft.seed == edited.seed,
        match (draft.adapter_options, edited.adapter_options) {
            (Some(x), Some(y)) => cosmetically_same(x@, y@),
            (None, None) => true,
            _ => false,
        },
        draft.media@.len() == edited.media@.len(),
        forall|i: int|
            0 <= i < draft.media@.len() ==> media_alike(
                #[trigger] draft.media@[i],
                identities[i]@,
                edited.media@[i],
                edited_identities[i]@,
            ),
    ensures
        fingerprint_of(fingerprint_document(draft, identities)) == fingerprint_of(
            fingerprint_document(edited, edited_identities),
        ),
{
    if let (Some(x), Some(y)) = (draft.adapter_options, edited.adapter_options) {
        canonical_documents_ignore_cosmetics(x@, y@);
    }
    let items = Seq::new(
        draft.media@.len(),
        |i: int| media_document(draft.media@[i], identities[i]@),
    );
    let edited_items = Seq::new(
        edited.media@.len(),
        |i: int| media_document(edited.media@[i], edited_identities[i]@),
    );
    assert forall|i: int| 0 <= i < items.len() implies items[i] == edited_items[i] by {
        alike_media_document(
            draft.media@[i],
            identities[i]@,
            edited.media@[i],
            edited_identities[i]@,
        );
    }
    assert(items =~= edited_items);
    assert(fingerprint_document(draft, identities)->Object_0 =~= fingerprint_document(
        edited,
        edited_identities,
    )->Object_0);
}

proof fn role_names_differ(a: MediaRole, b: MediaRole)
    requires
        role_name(a) == role_name(b),
    ensures
        a == b,
{
    reveal_strlit("start_frame");
    reveal_strlit("end_frame");
    reveal_strlit("reference");
    reveal_strlit("video_input");
    reveal_strlit("audio_input");
    assert("start_frame"@[0] == 's');
    assert("end_frame"@[0] == 'e');
    assert("reference"@[0] == 'r');
    assert("video_input"@[0] == 'v');
    assert("audio_input"@[0] == 'a');
}

proof fn media_document_covers(
    a: DraftMedia,
    a_identity: Seq<char>,
    b: DraftMedia,
    b_identity: Seq<char>,
)
    requires
        media_document(a, a_identity) == media_document(b, b_identity),
    ensures
        media_alike(a, a_identity, b, b_identity),
{
    let left = media_document(a, a_identity)->Object_0;
    let right = media_document(b, b_identity)->Object_0;
    assert(left[0] == right[0] && left[1] == right[1]);
    role_names_differ(a.role, b.role);
    reveal_strlit("local_file");
    reveal_strlit("remote_url");
    assert("local_file"@[0] == 'l');
    assert("remote_url"@[0] == 'r');
    let left_source = left[1].1->Object_0;
    let right_source = right[1].1->Object_0;
    assert(left_source[0] == right_source[0] && left_source[1] == right_source[1]);
}

/// What of an optional number enters a fingerprint.
pub open spec fn optional_number(number: Option<i64>) -> JsonView {
    match number {
        Some(n) => JsonView::Number(crate::outside::number_of(n)),
        None => JsonView::Null,
    }
}

/// What of a draft's options enters a fingerprint.
pub open spec fn options_document(options: Option<Json>) -> JsonView {
    match options {
        Some(options) => canonical_document(options@),
        None => JsonView::Null,
    }
}

/// The document under a draft's fingerprint covers everything that is billed: two drafts with the
/// same document agree in every setting and every media item, but for composition, white space and
/// the order of members. Numbers are compared as they are written into the document, and options
/// that are null count as none.
pub proof fn fingerprint_covers_everything_billed(
    draft: GenerationDraft,
    identities: Seq<String>,
    other: GenerationDraft,
    other_identities: Seq<String>,
)
    requires
        fingerprint_document(draft, identities) == fingerprint_document(other, other_identities),
    ensures
        draft.provider_id@ == other.provider_id@,
        canonical(draft.model@) == canonical(other.model@),
        canonical(draft.prompt@) == canonical(other.prompt@),
        texts_alike(draft.resolution, other.resolution),
        texts_alike(draft.aspect_ratio, other.aspect_ratio),
        texts_alike(draft.size, other.size),
        draft.generate_audio == other.generate_audio,
        match (draft.duration, other.duration) {
            (Some(a), Some(b)) => optional_number(Some(a as i64)) == optional_number(
                Some(b as i64),
            ),
            (None, None) => true,
            _ => false,
        },
        optional_number(draft.seed) == optional_number(other.seed),
        options_document(draft.adapter_options) == options_document(other.adapter_options),
        draft.media@.len() == other.media@.len(),
        forall|i: int|
            0 <= i < draft.media@.len() ==> media_alike(
                #[trigger] draft.media@[i],
                identities[i]@,
                other.media@[i],
                other_identities[i]@,
            ),
{
    let left = fingerprint_document(draft, identities)->Object_0;
    let right = fingerprint_document(other, other_identities)->Object_0;
    assert(left[0] == right[0] && left[1] == right[1] && left[2] == right[2]);
    assert(left[4] == right[4] && left[5] == right[5] && left[6] == right[6]);
    assert(left[7] == right[7] && left[8] == right[8] && left[9] == right[9]);
    assert(left[10] == right[10] && left[11] == right[11]);
    let items = left[5].1->Array_0;
    let other_items = right[5].1->Array_0;
    assert(items.len() == other_items.len());
    assert forall|i: int| 0 <= i < draft.media@.len() implies media_alike(
        #[trigger] draft.media@[i],
        identities[i]@,
        other.media@[i],
        other_identities[i]@,
    ) by {
        assert(items[i] == other_items[i]);
        media_document_covers(
            draft.media@[i],
            identities[i]@,
            other.media@[i],
            other_identities[i]@,
        );
    }
}

/// Refuses anything but a SHA-256 digest in lower-case hexadecimal.
pub fn validate_fingerprint(value: &str) -> (r: Result<(), GuiStateError>)
    ensures
        match r {
            Ok(_) => is_fingerprint(value@),
            Err(e) => !is_fingerprint(value@) && e@ == StateProblem::InvalidValue(
                "draft fingerprint must be a lowercase SHA-256 digest"@,
            ),
        },
{
    let s = chars_of(value);
    if s.len() != 64 {
        return Err(invalid("draft fingerprint must be a lowercase SHA-256 digest"));
    }
    let mut i: usize = 0;
    while i < s.len()
        invariant
            i <= s@.len(),
            s@ == value@,
            forall|k: int| 0 <= k < i ==> lower_hex(#[trigger] s@[k]),
        decreases s@.len() - i,
    {
        let c = s[i];
        if !(('0' <= c && c <= '9') || ('a' <= c && c <= 'f')) {
            assert(!lower_hex(value@[i as int]));
            return Err(invalid("draft fingerprint must be a lowercase SHA-256 digest"));
        }
        i = i + 1;
    }
    Ok(())
}

/// A media item of a kept draft.
#[derive(Debug, Clone)]
pub struct StoredDraftMedia {
    pub id: String,
    pub role: String,
    pub source: StoredMediaSource,
}

/// Where a kept media item is.
#[derive(Debug, Clone)]
pub enum StoredMediaSource {
    LocalFile(String),
    RemoteUrl(String),
}

/// A draft as it is kept: paths and URLs, but never media bytes or credentials.
pub struct StoredDraft {
    pub revision: u64,
    pub provider_id: ProviderId,
    pub model_id: String,
    pub prompt: String,
    pub settings: Json,
    pub editor_state: Option<DraftEditorState>,
    pub media: Vec<StoredDraftMedia>,
}

/// Whether a media item lacks its identifier or its role.
pub open spec fn nameless(media: StoredDraftMedia) -> bool {
    crate::text::trimmed(media.id@).len() == 0 || crate::text::trimmed(media.role@).len() == 0
}

/// The first complaint about a draft, if there is one.
pub open spec fn draft_problem(draft: StoredDraft) -> Option<StateProblem> {
    if !(draft.settings@ is Object) {
        Some(StateProblem::InvalidValue("draft settings must be a JSON object"@))
    } else if has_credential(draft.settings@) {
        Some(StateProblem::CredentialInDraft)
    } else if crate::json::field(draft.settings@, DRAFT_EDITOR_STATE_KEY@) is Some {
        Some(StateProblem::InvalidValue("draft settings use a reserved editor-state key"@))
    } else if draft.editor_state is Some && editor_problem(draft.editor_state->0) is Some {
        editor_problem(draft.editor_state->0)
    } else if exists|i: int| 0 <= i < draft.media@.len() && nameless(#[trigger] draft.media@[i]) {
        Some(StateProblem::InvalidValue("draft media id and role cannot be empty"@))
    } else {
        None
    }
}

proof fn schema_texts_fine(entries: Seq<SchemaText>, i: int)
    requires
        schema_texts_problem(entries) is None,
        0 <= i < entries.len(),
    ensures
        schema_text_problem(entries[i]) is None,
    decreases entries.len(),
{
    if i < entries.len() - 1 {
        schema_texts_fine(entries.drop_last(), i);
    }
}

/// A draft that passes holds no credential, neither in its settings nor in its editor's text, nor
/// in the texts of its schema fields or their names.
pub proof fn accepted_drafts_hold_no_credential(draft: StoredDraft)
    requires
        draft_problem(draft) is None,
    ensures
        !has_credential(draft.settings@),
        draft.editor_state matches Some(state) ==> !text_has_credential(state.seed_text@)
            && !text_has_credential(state.advanced_json_text@) && forall|i: int|
            0 <= i < state.schema_text@.len() ==> !credential_name(
                (#[trigger] state.schema_text@[i]).name@,
            ) && !text_has_credential(state.schema_text@[i].value@),
{
    if let Some(state) = draft.editor_state {
        assert forall|i: int| 0 <= i < state.schema_text@.len() implies !credential_name(
            (#[trigger] state.schema_text@[i]).name@,
        ) && !text_has_credential(state.schema_text@[i].value@) by {
            schema_texts_fine(state.schema_text@, i);
        }
    }
}

/// Checks a draft before it is kept and after it is read back.
pub fn validate_draft(draft: &StoredDraft) -> (r: Result<(), GuiStateError>)
    ensures
        match r {
            Ok(_) => draft_problem(*draft) is None,
            Err(e) => draft_problem(*draft) == Some(e@),
        },
{
    if draft.settings.as_object().is_none() {
        return Err(invalid("draft settings must be a JSON object"));
    }
    if contains_credential_field(&draft.settings) {
        return Err(GuiStateError::CredentialInDraft);
    }
    if draft.settings.get(DRAFT_EDITOR_STATE_KEY).is_some() {
        return Err(invalid("draft settings use a reserved editor-state key"));
    }
    if let Some(state) = &draft.editor_state {
        state.validate()?;
    }
    let mut i: usize = 0;
    while i < draft.media.len()
        invariant
            i <= draft.media@.len(),
            forall|k: int| 0 <= k < i ==> !nameless(#[trigger] draft.media@[k]),
            draft.settings@ is Object,
            !has_credential(draft.settings@),
            crate::json::field(draft.settings@, DRAFT_EDITOR_STATE_KEY@) is None,
            draft.editor_state is Some ==> editor_problem(draft.editor_state->0) is None,
        decreases draft.media@.len() - i,
    {
        if trim_text(draft.media[i].id.as_str()).is_empty() || trim_text(
            draft.media[i].role.as_str(),
        ).is_empty() {
            assert(nameless(draft.media@[i as int]));
            return Err(invalid("draft media id and role cannot be empty"));
        }
        i = i + 1;
    }
    Ok(())
}

/// The editor's text as a document.
pub open spec fn editor_document(state: DraftEditorState) -> JsonView {
    JsonView::Object(
        seq![
            ("advanced_json_text"@, JsonView::Text(state.advanced_json_text@)),
            (
                "schema_text"@,
                JsonView::Object(
                    Seq::new(
                        state.schema_text@.len(),
                        |i: int|
                            (
                                state.schema_text@[i].name@,
                                JsonView::Text(state.schema_text@[i].value@),
                            ),
                    ),
                ),
            ),
            ("seed_text"@, JsonView::Text(state.seed_text@)),
        ],
    )
}

fn editor_json(state: &DraftEditorState) -> (json: Json)
    ensures
        json@ == editor_document(*state),
{
    broadcast use crate::json::object_view;

    let mut fields: Vec<Member> = Vec::new();
    let mut i: usize = 0;
    while i < state.schema_text.len()
        invariant
            i <= state.schema_text@.len(),
            fields@.len() == i,
            forall|k: int|
                0 <= k < i ==> (#[trigger] fields@[k]).key@ == state.schema_text@[k].name@
                    && fields@[k].value@ == JsonView::Text(state.schema_text@[k].value@),
        decreases state.schema_text@.len() - i,
    {
        fields.push(
            member(
                state.schema_text[i].name.as_str(),
                Json::Text(state.schema_text[i].value.clone()),
            ),
        );
        i = i + 1;
    }
    let schema = Json::Object(fields);
    assert(schema@->Object_0 =~= editor_document(*state)->Object_0[1].1->Object_0);
    let mut members: Vec<Member> = Vec::new();
    members.push(member("advanced_json_text", Json::Text(state.advanced_json_text.clone())));
    members.push(member("schema_text", schema));
    members.push(member("seed_text", Json::Text(state.seed_text.clone())));
    let json = Json::Object(members);
    assert(json@->Object_0 =~= editor_document(*state)->Object_0);
    json
}

/// A draft's settings as they are written: with the editor's text under its own key.
pub open spec fn encoded_settings(
    settings: Seq<(Seq<char>, JsonView)>,
    editor: Option<DraftEditorState>,
) -> Seq<(Seq<char>, JsonView)> {
    match editor {
        Some(state) => crate::json::inserted(settings, DRAFT_EDITOR_STATE_KEY@, editor_document(state)),
        None => settings,
    }
}

/// Puts the editor's text into a draft's settings.
pub fn encoded_draft_settings(draft: &StoredDraft) -> (r: Result<Json, GuiStateError>)
    ensures
        match r {
            Ok(json) => match draft.settings@ {
                JsonView::Object(settings) => json@ == JsonView::Object(
                    encoded_settings(settings, draft.editor_state),
                ),
                other => draft.editor_state is None && json@ == other,
            },
            Err(e) => draft.editor_state is Some && !(draft.settings@ is Object) && e@
                == StateProblem::InvalidValue("draft settings must be a JSON object"@),
        },
{
    broadcast use crate::json::object_view;

    let settings = crate::json::copy_json(&draft.settings);
    match &draft.editor_state {
        Some(state) => match settings {
            Json::Object(mut members) => {
                insert_member(
                    &mut members,
                    DRAFT_EDITOR_STATE_KEY.to_owned(),
                    editor_json(state),
                );
                Ok(Json::Object(members))
            },
            _ => Err(invalid("draft settings must be a JSON object")),
        },
        None => Ok(settings),
    }
}

/// Separates the editor's text from a draft's settings as they were written.
pub fn decoded_draft_settings(settings: Json) -> (r: Result<(Json, Option<Json>), GuiStateError>)
    ensures
        match r {
            Ok((rest, editor)) => settings@ matches JsonView::Object(members) && rest@
                == JsonView::Object(crate::json::without(members, DRAFT_EDITOR_STATE_KEY@))
                && match editor {
                Some(json) => crate::json::lookup(members, DRAFT_EDITOR_STATE_KEY@) == Some(json@),
                None => crate::json::lookup(members, DRAFT_EDITOR_STATE_KEY@) is None,
            },
            Err(e) => !(settings@ is Object) && e@ == StateProblem::InvalidValue(
                "draft settings must be a JSON object"@,
            ),
        },
{
    broadcast use crate::json::object_view;

    match settings {
        Json::Object(mut members) => {
            let editor = crate::json::remove_member(&mut members, DRAFT_EDITOR_STATE_KEY);
            Ok((Json::Object(members), editor))
        },
        _ => Err(invalid("draft settings must be a JSON object")),
    }
}

/// A draft's settings with the editor's text, as a document.
pub open spec fn encoded_document(settings: JsonView, editor: Option<DraftEditorState>) -> JsonView {
    match settings {
        JsonView::Object(members) => JsonView::Object(encoded_settings(members, editor)),
        other => other,
    }
}

/// The text under which a draft's settings and its editor's text are kept.
pub fn written_draft_settings(draft: &StoredDraft) -> (r: Result<String, GuiStateError>)
    ensures
        match r {
            Ok(text) => {
                let document = encoded_document(draft.settings@, draft.editor_state);
                &&& draft.editor_state is Some ==> draft.settings@ is Object
                &&& text@ == crate::outside::rendering_of(document)
                &&& crate::json::readable(document, crate::json::MAX_DEPTH as nat)
                    ==> crate::outside::holds_document(text@, document)
            },
            Err(e) => draft.editor_state is Some && !(draft.settings@ is Object) && e@
                == StateProblem::InvalidValue("draft settings must be a JSON object"@),
        },
{
    let document = encoded_draft_settings(draft)?;
    Ok(render(&document))
}

/// The settings and the editor's text that a kept text holds.
pub open spec fn settings_in(document: Result<JsonView, Seq<char>>) -> Result<
    (JsonView, Option<JsonView>),
    StateProblem,
> {
    match document {
        Ok(JsonView::Object(members)) => Ok(
            (
                JsonView::Object(crate::json::without(members, DRAFT_EDITOR_STATE_KEY@)),
                crate::json::lookup(members, DRAFT_EDITOR_STATE_KEY@),
            ),
        ),
        Ok(_) => Err(StateProblem::InvalidValue("draft settings must be a JSON object"@)),
        Err(message) => Err(StateProblem::Json(message)),
    }
}

/// Reads the settings and the editor's text from the text under which they were kept.
pub fn read_draft_settings(text: &str) -> (r: Result<(Json, Option<Json>), GuiStateError>)
    ensures
        match r {
            Ok((settings, editor)) => settings_in(crate::outside::document_of(text@)) == Ok::<
                (JsonView, Option<JsonView>),
                StateProblem,
            >((settings@, crate::json::json_option(editor))),
            Err(e) => settings_in(crate::outside::document_of(text@)) == Err::<
                (JsonView, Option<JsonView>),
                StateProblem,
            >(e@),
        },
{
    match read_document(text) {
        Ok(document) => decoded_draft_settings(document),
        Err(message) => Err(GuiStateError::Json(message)),
    }
}

/// What is read back of a draft's settings and its editor's text is exactly what was written.
pub proof fn draft_settings_round_trip(
    settings: Seq<(Seq<char>, JsonView)>,
    editor: Option<DraftEditorState>,
)
    requires
        crate::json::sorted_keys(settings),
        crate::json::lookup(settings, DRAFT_EDITOR_STATE_KEY@) is None,
    ensures
        crate::json::without(encoded_settings(settings, editor), DRAFT_EDITOR_STATE_KEY@)
            == settings,
        crate::json::lookup(encoded_settings(settings, editor), DRAFT_EDITOR_STATE_KEY@) == (match editor {
            Some(state) => Some(editor_document(state)),
            None => None,
        }),
{
    match editor {
        Some(state) => {
            crate::json::inserted_lookup(
                settings,
                DRAFT_EDITOR_STATE_KEY@,
                editor_document(state),
                DRAFT_EDITOR_STATE_KEY@,
            );
            crate::json::without_undoes_inserted(
                settings,
                DRAFT_EDITOR_STATE_KEY@,
                editor_document(state),
            );
        },
        None => {
            crate::json::without_absent(settings, DRAFT_EDITOR_STATE_KEY@);
        },
    }
}

/// The revision number under which a draft is kept.
pub fn stored_revision(revision: u64) -> (r: Result<i64, GuiStateError>)
    ensures
        match r {
            Ok(n) => n == revision,
            Err(e) => revision > i64::MAX && e@ == StateProblem::InvalidValue(
                "draft revision is too large"@,
            ),
        },
{
    if revision > 9223372036854775807u64 {
        Err(invalid("draft revision is too large"))
    } else {
        Ok(revision as i64)
    }
}

/// The revision of a draft that was kept under this number.
pub fn read_revision(revision: i64) -> (r: Result<u64, GuiStateError>)
    ensures
        match r {
            Ok(n) => n == revision,
            Err(e) => revision < 0 && e@ == StateProblem::InvalidValue("negative draft revision"@),
        },
{
    if revision < 0 {
        Err(invalid("negative draft revision"))
    } else {
        Ok(revision as u64)
    }
}

/// Proof that a local file was uploaded, and until when the upload is there.
#[derive(Debug, Clone)]
pub struct StoredUploadReceipt {
    pub provider_id: ProviderId,
    pub source_sha256: String,
    pub source_path: String,
    pub remote_url: String,
    pub content_type: String,
    pub byte_length: u64,
    pub created_at: Timestamp,
    pub expires_at: Timestamp,
}

/// Whether `s` is a SHA-256 digest in hexadecimal of either case.
pub open spec fn is_hex_digest(s: Seq<char>) -> bool {
    s.len() == 64 && forall|i: int|
        0 <= i < s.len() ==> (lower_hex(#[trigger] s[i]) || 'A' <= s[i] <= 'F')
}

/// The first complaint about a receipt, if there is one.
pub open spec fn receipt_problem(receipt: StoredUploadReceipt) -> Option<Seq<char>> {
    if !is_hex_digest(receipt.source_sha256@) {
        Some("upload receipt requires a SHA-256 hex digest"@)
    } else if !"/"@.is_prefix_of(receipt.source_path@) {
        Some("upload source path must be absolute"@)
    } else if !"https://"@.is_prefix_of(receipt.remote_url@) {
        Some("upload receipt URL must use HTTPS"@)
    } else if !receipt.created_at.before(receipt.expires_at) {
        Some("upload receipt expiry must follow creation"@)
    } else {
        None
    }
}

fn hex_digest(value: &str) -> (b: bool)
    ensures
        b == is_hex_digest(value@),
{
    let s = chars_of(value);
    if s.len() != 64 {
        return false;
    }
    let mut i: usize = 0;
    while i < s.len()
        invariant
            i <= s@.len(),
            s@ == value@,
            forall|k: int|
                0 <= k < i ==> (lower_hex(#[trigger] s@[k]) || 'A' <= s@[k] <= 'F'),
        decreases s@.len() - i,
    {
        let c = s[i];
        if !(('0' <= c && c <= '9') || ('a' <= c && c <= 'f') || ('A' <= c && c <= 'F')) {
            assert(!(lower_hex(value@[i as int]) || 'A' <= value@[i as int] <= 'F'));
            return false;
        }
        i = i + 1;
    }
    true
}

/// Checks a receipt before it is kept.
pub fn validate_receipt(receipt: &StoredUploadReceipt) -> (r: Result<(), GuiStateError>)
    ensures
        match r {
            Ok(_) => receipt_problem(*receipt) is None,
            Err(e) => receipt_problem(*receipt) matches Some(m) && e@ == StateProblem::InvalidValue(m),
        },
{
    if !hex_digest(receipt.source_sha256.as_str()) {
        return Err(invalid("upload receipt requires a SHA-256 hex digest"));
    }
    if !starts_with_text(receipt.source_path.as_str(), "/") {
        return Err(invalid("upload source path must be absolute"));
    }
    if !starts_with_text(receipt.remote_url.as_str(), "https://") {
        return Err(invalid("upload receipt URL must use HTTPS"));
    }
    if !receipt.created_at.is_before(receipt.expires_at) {
        return Err(invalid("upload receipt expiry must follow creation"));
    }
    Ok(())
}

impl StoredUploadReceipt {
    /// Whether the upload is still there at `now`.
    pub fn usable_at(&self, now: Timestamp) -> (b: bool)
        ensures
            b == now.before(self.expires_at),
    {
        now.is_before(self.expires_at)
    }
}

/// The size under which an upload is kept.
pub fn stored_length(byte_length: u64) -> (r: Result<i64, GuiStateError>)
    ensures
        match r {
            Ok(n) => n == byte_length,
            Err(e) => byte_length > i64::MAX && e@ == StateProblem::InvalidValue(
                "upload byte length is too large"@,
            ),
        },
{
    if byte_length > 9223372036854775807u64 {
        Err(invalid("upload byte length is too large"))
    } else {
        Ok(byte_length as i64)
    }
}

/// The moment that a kept text denotes.
pub fn moment_or_error(moment: Option<Timestamp>, value: &str) -> (r: Result<
    Timestamp,
    GuiStateError,
>)
    ensures
        match r {
            Ok(m) => moment == Some(m),
            Err(e) => moment is None && e@ == StateProblem::InvalidValue(
                "invalid timestamp "@ + value@,
            ),
        },
{
    match moment {
        Some(m) => Ok(m),
        None => Err(GuiStateError::InvalidValue(concat("invalid timestamp ", value))),
    }
}

/// Reads a kept moment.
pub fn parse_timestamp(value: &str) -> (r: Result<Timestamp, GuiStateError>)
    ensures
        match r {
            Ok(m) => crate::outside::moment_of(value@) == Some(m),
            Err(e) => crate::outside::moment_of(value@) is None && e@ == StateProblem::InvalidValue(
                "invalid timestamp "@ + value@,
            ),
        },
{
    moment_or_error(read_moment(value), value)
}

/// The text under which a moment is kept. What is kept of a moment in the years from 0 to 9999 is
/// read back as that moment.
pub fn write_timestamp(moment: Timestamp) -> (r: Result<String, GuiStateError>)
    ensures
        match r {
            Ok(text) => crate::outside::rfc3339_of(moment) == Some(text@) && (
            crate::outside::has_plain_year(moment) ==> crate::outside::moment_of(text@) == Some(
                moment,
            )),
            Err(e) => crate::outside::rfc3339_of(moment) is None
                && !crate::outside::has_plain_year(moment) && e@ == StateProblem::InvalidValue(
                "a moment is out of range"@,
            ),
        },
{
    match write_rfc3339(moment) {
        Some(text) => Ok(text),
        None => Err(invalid("a moment is out of range")),
    }
}

/// A receipt as it is kept.
#[derive(Debug)]
pub struct ReceiptRow {
    pub source_sha256: String,
    pub source_path: String,
    pub remote_url: String,
    pub content_type: String,
    pub byte_length: i64,
    pub created_at: String,
    pub expires_at: String,
}

/// Whether a row is what is kept of a receipt. Moments in the years from 0 to 9999 are read back.
pub open spec fn keeps_receipt(row: ReceiptRow, receipt: StoredUploadReceipt) -> bool {
    &&& row.source_sha256@ == receipt.source_sha256@
    &&& row.source_path@ == receipt.source_path@
    &&& row.remote_url@ == receipt.remote_url@
    &&& row.content_type@ == receipt.content_type@
    &&& row.byte_length == receipt.byte_length
    &&& crate::outside::rfc3339_of(receipt.created_at) == Some(row.created_at@)
    &&& crate::outside::rfc3339_of(receipt.expires_at) == Some(row.expires_at@)
    &&& crate::outside::has_plain_year(receipt.created_at) ==> crate::outside::moment_of(
        row.created_at@,
    ) == Some(receipt.created_at)
    &&& crate::outside::has_plain_year(receipt.expires_at) ==> crate::outside::moment_of(
        row.expires_at@,
    ) == Some(receipt.expires_at)
}

/// The row of a receipt.
pub fn receipt_row(receipt: &StoredUploadReceipt) -> (r: Result<ReceiptRow, GuiStateError>)
    ensures
        match r {
            Ok(row) => receipt_problem(*receipt) is None && keeps_receipt(row, *receipt),
            Err(e) => match receipt_problem(*receipt) {
                Some(m) => e@ == StateProblem::InvalidValue(m),
                None => if receipt.byte_length > i64::MAX {
                    e@ == StateProblem::InvalidValue("upload byte length is too large"@)
                } else {
                    (crate::outside::rfc3339_of(receipt.created_at) is None
                        || crate::outside::rfc3339_of(receipt.expires_at) is None) && e@
                        == StateProblem::InvalidValue("a moment is out of range"@)
                },
            },
        },
{
    validate_receipt(receipt)?;
    let byte_length = stored_length(receipt.byte_length)?;
    let created_at = write_timestamp(receipt.created_at)?;
    let expires_at = write_timestamp(receipt.expires_at)?;
    Ok(
        ReceiptRow {
            source_sha256: receipt.source_sha256.clone(),
            source_path: receipt.source_path.clone(),
            remote_url: receipt.remote_url.clone(),
            content_type: receipt.content_type.clone(),
            byte_length,
            created_at,
            expires_at,
        },
    )
}

/// The complaint about a kept receipt, if there is one.
pub open spec fn receipt_row_problem(row: ReceiptRow) -> Option<Seq<char>> {
    if row.byte_length < 0 {
        Some("negative upload byte length"@)
    } else if crate::outside::moment_of(row.created_at@) is None {
        Some("invalid timestamp "@ + row.created_at@)
    } else if crate::outside::moment_of(row.expires_at@) is None {
        Some("invalid timestamp "@ + row.expires_at@)
    } else {
        None
    }
}

/// A receipt of the years from 0 to 9999 that was kept is read back as it was.
pub proof fn kept_receipts_come_back(receipt: StoredUploadReceipt, row: ReceiptRow)
    requires
        keeps_receipt(row, receipt),
        crate::outside::has_plain_year(receipt.created_at),
        crate::outside::has_plain_year(receipt.expires_at),
    ensures
        receipt_row_problem(row) is None,
        row.source_sha256@ == receipt.source_sha256@,
        row.source_path@ == receipt.source_path@,
        row.remote_url@ == receipt.remote_url@,
        row.content_type@ == receipt.content_type@,
        row.byte_length as u64 == receipt.byte_length,
        crate::outside::moment_of(row.created_at@) == Some(receipt.created_at),
        crate::outside::moment_of(row.expires_at@) == Some(receipt.expires_at),
{
}

/// Reads a kept receipt.
pub fn read_receipt(provider_id: ProviderId, row: ReceiptRow) -> (r: Result<
    StoredUploadReceipt,
    GuiStateError,
>)
    ensures
        match r {
            Ok(receipt) => receipt_row_problem(row) is None && receipt == (StoredUploadReceipt {
                provider_id,
                source_sha256: row.source_sha256,
                source_path: row.source_path,
                remote_url: row.remote_url,
                content_type: row.content_type,
                byte_length: row.byte_length as u64,
                created_at: crate::outside::moment_of(row.created_at@)->0,
                expires_at: crate::outside::moment_of(row.expires_at@)->0,
            }),
            Err(e) => receipt_row_problem(row) matches Some(m) && e@ == StateProblem::InvalidValue(
                m,
            ),
        },
{
    if row.byte_length < 0 {
        return Err(invalid("negative upload byte length"));
    }
    let created_at = parse_timestamp(row.created_at.as_str())?;
    let expires_at = parse_timestamp(row.expires_at.as_str())?;
    Ok(
        StoredUploadReceipt {
            provider_id,
            source_sha256: row.source_sha256,
            source_path: row.source_path,
            remote_url: row.remote_url,
            content_type: row.content_type,
            byte_length: row.byte_length as u64,
            created_at,
            expires_at,
        },
    )
}

/// The receipt of an upload that is still there at `now`, if there is one.
pub fn usable_receipt(receipt: Option<StoredUploadReceipt>, now: Timestamp) -> (r: Option<
    StoredUploadReceipt,
>)
    ensures
        r == match receipt {
            Some(kept) if now.before(kept.expires_at) => Some(kept),
            _ => None,
        },
{
    match receipt {
        Some(kept) => if kept.usable_at(now) {
            Some(kept)
        } else {
            None
        },
        None => None,
    }
}

/// One media item of a submitted generation.
#[derive(Debug, Clone)]
pub struct GenerationMediaAssociation {
    pub key: ProviderJobKey,
    pub position: usize,
    pub draft_media_id: String,
    pub role: String,
    pub source: StoredMediaSource,
    pub resolved_url: String,
}

/// The place under which a media item is kept.
pub fn stored_position(position: usize) -> (r: Result<i64, GuiStateError>)
    ensures
        match r {
            Ok(n) => n == position,
            Err(e) => position > i64::MAX && e@ == StateProblem::InvalidValue(
                "media position is too large"@,
            ),
        },
{
    if position as u64 > 9223372036854775807u64 {
        Err(invalid("media position is too large"))
    } else {
        Ok(position as i64)
    }
}

/// The place of a media item that was kept under this number.
pub fn read_position(position: i64) -> (r: Result<usize, GuiStateError>)
    ensures
        match r {
            Ok(n) => n == position,
            Err(e) => !(0 <= position <= usize::MAX) && e@ == StateProblem::InvalidValue(
                "negative media position"@,
            ),
        },
{
    if position < 0 || position as u64 > usize::MAX as u64 {
        Err(invalid("negative media position"))
    } else {
        Ok(position as usize)
    }
}

/// Refuses media that belong to another job.
pub fn validate_generation_media(
    key: &ProviderJobKey,
    media: &Vec<GenerationMediaAssociation>,
) -> (r: Result<(), GuiStateError>)
    ensures
        match r {
            Ok(_) => forall|i: int| 0 <= i < media@.len() ==> (#[trigger] media@[i]).key@ == key@,
            Err(e) => (exists|i: int| 0 <= i < media@.len() && (#[trigger] media@[i]).key@ != key@)
                && e@ == StateProblem::InvalidValue(
                "generation media must belong to the same provider job"@,
            ),
        },
{
    let mut i: usize = 0;
    while i < media.len()
        invariant
            i <= media@.len(),
            forall|k: int| 0 <= k < i ==> (#[trigger] media@[k]).key@ == key@,
        decreases media@.len() - i,
    {
        if !media[i].key.same(key) {
            return Err(invalid("generation media must belong to the same provider job"));
        }
        i = i + 1;
    }
    Ok(())
}

/// A remote job that can be monitored again after a restart.
#[derive(Debug, Clone)]
pub struct ResumableJob {
    pub key: ProviderJobKey,
    pub locator: JobLocator,
    pub accepted_at: Timestamp,
    pub monitoring_paused: bool,
}

/// The provider and the identifier that a locator leads to.
pub open spec fn leads_to(locator: JobLocator) -> (Seq<char>, Seq<char>) {
    (locator@.provider(), locator@.job_id())
}

/// Refuses a job whose key is not the one that its locator leads to.
pub fn validate_resumable_job(job: &ResumableJob) -> (r: Result<(), GuiStateError>)
    ensures
        match r {
            Ok(_) => leads_to(job.locator) == job.key@,
            Err(e) => leads_to(job.locator) != job.key@ && e@ == StateProblem::InvalidValue(
                "resumable job key and locator do not match"@,
            ),
        },
{
    if job.locator.key().same(&job.key) {
        Ok(())
    } else {
        Err(invalid("resumable job key and locator do not match"))
    }
}

/// Reads a kept job: the moment of its acceptance, and that its key is the one that its locator
/// leads to.
pub fn read_resumable_job(
    key: ProviderJobKey,
    locator: JobLocator,
    accepted_at: &str,
    monitoring_paused: bool,
) -> (r: Result<ResumableJob, GuiStateError>)
    ensures
        match r {
            Ok(job) => leads_to(locator) == key@ && crate::outside::moment_of(accepted_at@) == Some(
                job.accepted_at,
            ) && job == (ResumableJob {
                key,
                locator,
                accepted_at: job.accepted_at,
                monitoring_paused,
            }),
            Err(e) => e@ == StateProblem::InvalidValue(
                if crate::outside::moment_of(accepted_at@) is None {
                    "invalid timestamp "@ + accepted_at@
                } else {
                    "saved resumable job key and locator do not match"@
                },
            ) && (crate::outside::moment_of(accepted_at@) is None || leads_to(locator) != key@),
        },
{
    let moment = parse_timestamp(accepted_at)?;
    if !locator.key().same(&key) {
        return Err(invalid("saved resumable job key and locator do not match"));
    }
    Ok(ResumableJob { key, locator, accepted_at: moment, monitoring_paused })
}

/// A paid submission whose outcome is not known: the provider, a digest of the draft and nothing
/// of the draft itself.
#[derive(Debug, Clone)]
pub struct UncertainSubmissionRecord {
    pub provider_id: ProviderId,
    pub draft_fingerprint: String,
    pub recorded_at: Timestamp,
    pub message: String,
}

impl UncertainSubmissionRecord {
    /// A record with the fixed warning text.
    pub fn new(provider_id: ProviderId, draft_fingerprint: String, recorded_at: Timestamp) -> (record:
        UncertainSubmissionRecord)
        ensures
            record.provider_id == provider_id,
            record.draft_fingerprint == draft_fingerprint,
            record.recorded_at == recorded_at,
            record.message@ == UNCERTAIN_SUBMISSION_MESSAGE@,
    {
        UncertainSubmissionRecord {
            provider_id,
            draft_fingerprint,
            recorded_at,
            message: UNCERTAIN_SUBMISSION_MESSAGE.to_owned(),
        }
    }

    /// The same record again.
    pub fn copy(&self) -> (record: UncertainSubmissionRecord)
        ensures
            record.provider_id@ == self.provider_id@,
            record.draft_fingerprint == self.draft_fingerprint,
            record.recorded_at == self.recorded_at,
            record.message == self.message,
    {
        UncertainSubmissionRecord {
            provider_id: self.provider_id.copy(),
            draft_fingerprint: self.draft_fingerprint.clone(),
            recorded_at: self.recorded_at,
            message: self.message.clone(),
        }
    }
}

/// The complaint about a record, if there is one.
pub open spec fn record_problem(record: UncertainSubmissionRecord) -> Option<Seq<char>> {
    if !is_fingerprint(record.draft_fingerprint@) {
        Some("draft fingerprint must be a lowercase SHA-256 digest"@)
    } else if record.message@ != UNCERTAIN_SUBMISSION_MESSAGE@ {
        Some("uncertain submission warning must not contain provider response data"@)
    } else {
        None
    }
}

/// Refuses a record that holds anything but a digest and the fixed warning text.
pub fn validate_uncertain_submission(record: &UncertainSubmissionRecord) -> (r: Result<
    (),
    GuiStateError,
>)
    ensures
        match r {
            Ok(_) => record_problem(*record) is None,
            Err(e) => record_problem(*record) matches Some(m) && e@ == StateProblem::InvalidValue(m),
        },
{
    validate_fingerprint(record.draft_fingerprint.as_str())?;
    if !same_text(record.message.as_str(), UNCERTAIN_SUBMISSION_MESSAGE) {
        return Err(
            invalid("uncertain submission warning must not contain provider response data"),
        );
    }
    Ok(())
}

/// Reads a kept record.
pub fn read_uncertain_submission(
    provider_id: ProviderId,
    draft_fingerprint: String,
    recorded_at: &str,
    message: String,
) -> (r: Result<UncertainSubmissionRecord, GuiStateError>)
    ensures
        match r {
            Ok(record) => crate::outside::moment_of(recorded_at@) == Some(record.recorded_at)
                && record == (UncertainSubmissionRecord {
                provider_id,
                draft_fingerprint,
                recorded_at: record.recorded_at,
                message,
            }) && record_problem(record) is None,
            Err(e) => match crate::outside::moment_of(recorded_at@) {
                None => e@ == StateProblem::InvalidValue("invalid timestamp "@ + recorded_at@),
                Some(moment) => record_problem(
                    UncertainSubmissionRecord {
                        provider_id,
                        draft_fingerprint,
                        recorded_at: moment,
                        message,
                    },
                ) matches Some(m) && e@ == StateProblem::InvalidValue(m),
            },
        },
{
    let moment = parse_timestamp(recorded_at)?;
    let record = UncertainSubmissionRecord {
        provider_id,
        draft_fingerprint,
        recorded_at: moment,
        message,
    };
    validate_uncertain_submission(&record)?;
    Ok(record)
}

/// What came of the attempt to begin a submission.
#[derive(Debug, Clone)]
pub enum BeginUncertainSubmission {
    Inserted(UncertainSubmissionRecord),
    Existing(UncertainSubmissionRecord),
}

/// Decides whether a submission may begin: a record of the same provider and draft that is still
/// there, `existing`, blocks it and stays as it is.
pub fn begin_uncertain_submission(
    record: UncertainSubmissionRecord,
    existing: Option<UncertainSubmissionRecord>,
) -> (r: Result<BeginUncertainSubmission, GuiStateError>)
    ensures
        match r {
            Ok(BeginUncertainSubmission::Inserted(saved)) => record_problem(record) is None
                && existing is None && saved == record,
            Ok(BeginUncertainSubmission::Existing(saved)) => record_problem(record) is None
                && existing == Some(saved),
            Err(e) => record_problem(record) matches Some(m) && e@ == StateProblem::InvalidValue(m),
        },
{
    validate_uncertain_submission(&record)?;
    match existing {
        Some(saved) => Ok(BeginUncertainSubmission::Existing(saved)),
        None => Ok(BeginUncertainSubmission::Inserted(record)),
    }
}

/// The layout version of the kept state.
pub const SCHEMA_VERSION: i64 = 1;

/// Refuses state that a later version of the client has written.
pub fn check_schema_version(found: i64) -> (r: Result<(), GuiStateError>)
    ensures
        match r {
            Ok(_) => found <= SCHEMA_VERSION,
            Err(e) => found > SCHEMA_VERSION && e@ == (StateProblem::UnsupportedSchemaVersion {
                found,
                supported: SCHEMA_VERSION,
            }),
        },
{
    if found > SCHEMA_VERSION {
        Err(GuiStateError::UnsupportedSchemaVersion { found, supported: SCHEMA_VERSION })
    } else {
        Ok(())
    }
}

/// Where the state is kept.
#[derive(Debug, Clone)]
pub struct GuiStateStore {
    location: String,
}

impl GuiStateStore {
    /// The file that the state is kept in.
    pub closed spec fn spec_path(&self) -> Seq<char> {
        self.location@
    }

    /// State kept in the file at `path`.
    pub fn new(path: String) -> (store: GuiStateStore)
        ensures
            store.spec_path() == path@,
    {
        GuiStateStore { location: path }
    }

    /// The file that the state is kept in.
    pub fn path(&self) -> (path: &str)
        ensures
            path@ == self.spec_path(),
    {
        self.location.as_str()
    }
}

} // verus!
