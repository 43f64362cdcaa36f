//! What the kept state promises: which names and texts count as credentials, what is left of a text
//! when it is made canonical, and which receipts and records are kept.

use crate::domain::{LocatorView, Timestamp};
use crate::gui_state::{
    DraftEditorState, SchemaText, StoredUploadReceipt, UncertainSubmissionRecord,
};
use crate::json::JsonView;
use vstd::prelude::*;

verus! {

/// A name counts by its letters and digits alone, in small letters.
pub proof fn names_count_by_letters_and_digits(name: Seq<char>)
    ensures
        crate::gui_state::bare_name(name) == name.filter(
            |c: char| crate::gui_state::ascii_alnum(c),
        ).map_values(|c: char| crate::text::lower(c)),
    decreases name.len(),
{
    reveal(Seq::filter);
    let keep = |c: char| crate::gui_state::ascii_alnum(c);
    let small = |c: char| crate::text::lower(c);
    if name.len() > 0 {
        let rest = name.drop_last();
        names_count_by_letters_and_digits(rest);
        if crate::gui_state::ascii_alnum(name.last()) {
            assert(name.filter(keep) == rest.filter(keep).push(name.last()));
            assert(name.filter(keep).map_values(small) =~= rest.filter(keep).map_values(small).push(
                crate::text::lower(name.last()),
            ));
        }
    } else {
        assert(name.filter(keep).map_values(small) =~= Seq::<char>::empty());
    }
}

/// The names under which credentials are kept: keys, secrets, tokens, and what authorizes; the names
/// that only count tokens are none.
pub proof fn credentials_have_their_names(name: Seq<char>)
    ensures
        ({
            let word = crate::gui_state::bare_name(name);
            let found = crate::gui_state::credential_name(name);
            &&& "apikey"@.is_suffix_of(word) ==> found
            &&& "secret"@.is_suffix_of(word) ==> found
            &&& "authorization"@.is_prefix_of(word) ==> found
            &&& word == "credential"@ || word == "credentials"@ ==> found
            &&& word == "secretkey"@ || word == "privatekey"@ || word == "falkey"@ ==> found
            &&& word == "token"@ || word == "accesstoken"@ || word == "refreshtoken"@ || word
                == "authtoken"@ || word == "bearertoken"@ ==> found
            &&& "token"@.is_suffix_of(word) && word != "maxtoken"@ && word != "mintoken"@ && word
                != "numtoken"@ ==> found
            &&& found ==> crate::text::occurs(word, "key"@) || crate::text::occurs(word, "secret"@)
                || crate::text::occurs(word, "token"@) || crate::text::occurs(word, "credential"@)
                || crate::text::occurs(word, "authorization"@)
        }),
{
    reveal_strlit("apikey");
    reveal_strlit("authorization");
    reveal_strlit("credential");
    reveal_strlit("credentials");
    reveal_strlit("secret");
    reveal_strlit("token");
    reveal_strlit("accesstoken");
    reveal_strlit("refreshtoken");
    reveal_strlit("clientsecret");
    reveal_strlit("secretkey");
    reveal_strlit("privatekey");
    reveal_strlit("authtoken");
    reveal_strlit("bearertoken");
    reveal_strlit("falkey");
    reveal_strlit("key");
    reveal_strlit("tokencount");
    reveal_strlit("tokenlimit");
    let word = crate::gui_state::bare_name(name);
    if "token"@.is_suffix_of(word) {
        assert(word.subrange(word.len() - 5, word.len() as int) =~= "token"@);
        assert(crate::text::occurs_at(word, "token"@, word.len() - 5));
        assert(word.subrange(word.len() - 5, word.len() as int)[4] == 'n');
        assert("tokencount"@.last() == 't' && "tokenlimit"@.last() == 't');
    }
    if "apikey"@.is_suffix_of(word) {
        let part = word.subrange(word.len() - 6, word.len() as int);
        assert(part =~= "apikey"@);
        assert(word.subrange(word.len() - 3, word.len() as int) =~= part.subrange(3, 6));
        assert("apikey"@.subrange(3, 6) =~= "key"@);
        assert(crate::text::occurs_at(word, "key"@, word.len() - 3));
    }
    if "secret"@.is_suffix_of(word) {
        assert(word.subrange(word.len() - 6, word.len() as int) =~= "secret"@);
        assert(crate::text::occurs_at(word, "secret"@, word.len() - 6));
    }
    if "authorization"@.is_prefix_of(word) {
        assert(word.subrange(0, 13) =~= "authorization"@);
        assert(crate::text::occurs_at(word, "authorization"@, 0));
    }
    if word == "authorization"@ {
        assert(word.subrange(0, 13) =~= "authorization"@);
        assert(crate::text::occurs_at(word, "authorization"@, 0));
    }
    if word == "apikey"@ || word == "falkey"@ {
        assert(word.subrange(3, 6) =~= "key"@);
        assert(crate::text::occurs_at(word, "key"@, 3));
    }
    if word == "credential"@ || word == "credentials"@ {
        assert(word.subrange(0, 10) =~= "credential"@);
        assert(crate::text::occurs_at(word, "credential"@, 0));
    }
    if word == "secret"@ || word == "secretkey"@ {
        assert(word.subrange(0, 6) =~= "secret"@);
        assert(crate::text::occurs_at(word, "secret"@, 0));
    }
    if word == "clientsecret"@ {
        assert(word.subrange(6, 12) =~= "secret"@);
        assert(crate::text::occurs_at(word, "secret"@, 6));
    }
    if word == "privatekey"@ {
        assert(word.subrange(7, 10) =~= "key"@);
        assert(crate::text::occurs_at(word, "key"@, 7));
    }
    if word == "token"@ {
        assert(word.subrange(0, 5) =~= "token"@);
        assert(crate::text::occurs_at(word, "token"@, 0));
    }
    if word == "accesstoken"@ || word == "bearertoken"@ {
        assert(word.subrange(6, 11) =~= "token"@);
        assert(crate::text::occurs_at(word, "token"@, 6));
    }
    if word == "refreshtoken"@ {
        assert(word.subrange(7, 12) =~= "token"@);
        assert(crate::text::occurs_at(word, "token"@, 7));
    }
    if word == "authtoken"@ {
        assert(word.subrange(4, 9) =~= "token"@);
        assert(crate::text::occurs_at(word, "token"@, 4));
    }
}

/// A credential is found wherever it stands in a document: in an object, in an object inside it, and
/// in a list; a text or a number alone holds none.
pub proof fn credentials_are_found_at_every_depth(
    key: Seq<char>,
    value: JsonView,
    members: Seq<(Seq<char>, JsonView)>,
    items: Seq<JsonView>,
    i: int,
)
    ensures
        0 <= i < members.len() && crate::gui_state::credential_name(members[i].0)
            ==> crate::gui_state::has_credential(JsonView::Object(members)),
        0 <= i < members.len() && crate::gui_state::has_credential(members[i].1)
            ==> crate::gui_state::has_credential(JsonView::Object(members)),
        0 <= i < items.len() && crate::gui_state::has_credential(items[i])
            ==> crate::gui_state::has_credential(JsonView::Array(items)),
        !(value is Object) && !(value is Array) ==> !crate::gui_state::has_credential(value),
        !crate::gui_state::credential_name(key) && !crate::gui_state::has_credential(value)
            ==> !crate::gui_state::has_credential(JsonView::Object(seq![(key, value)])),
{
    let object = JsonView::Object(members);
    let list = JsonView::Array(items);
    if 0 <= i < members.len() && (crate::gui_state::credential_name(members[i].0)
        || crate::gui_state::has_credential(members[i].1)) {
        assert(object->Object_0[i] == members[i]);
        assert(crate::gui_state::has_credential(object));
    }
    if 0 <= i < items.len() && crate::gui_state::has_credential(items[i]) {
        assert(list->Array_0[i] == items[i]);
        assert(crate::gui_state::has_credential(list));
    }
    let one = seq![(key, value)];
    assert(one.len() == 1 && one[0] == (key, value));
}

proof fn no_quote_is_open(s: Seq<char>, n: nat)
    requires
        n <= s.len(),
        forall|i: int| 0 <= i < n ==> crate::gui_state::key_char(#[trigger] s[i]),
    ensures
        crate::gui_state::scan_state(s, n).quote is None,
    decreases n,
{
    if n > 0 {
        no_quote_is_open(s, (n - 1) as nat);
        assert(crate::gui_state::key_char(s[n - 1]));
    }
}

proof fn run_starts_at_the_front(s: Seq<char>, end: nat)
    requires
        end <= s.len(),
        forall|i: int| 0 <= i < end ==> crate::gui_state::key_char(#[trigger] s[i]),
    ensures
        crate::gui_state::run_start(s, end) == 0,
    decreases end,
{
    if end > 0 {
        run_starts_at_the_front(s, (end - 1) as nat);
    }
}

/// A text that starts with the name of a credential and assigns something to it is found out, with
/// either sign and with spaces before the sign.
pub proof fn assigned_credentials_are_found(key: Seq<char>, sign: char, rest: Seq<char>)
    requires
        key.len() > 0,
        forall|i: int| 0 <= i < key.len() ==> crate::gui_state::key_char(#[trigger] key[i]),
        crate::gui_state::credential_name(key),
        sign == ':' || sign == '=',
    ensures
        crate::gui_state::assigns_credential(key + seq![sign] + rest),
        crate::gui_state::assigns_credential(key + seq![' ', sign] + rest),
{
    let s = key + seq![sign] + rest;
    let n = key.len();
    assert forall|i: int| 0 <= i < n implies crate::gui_state::key_char(#[trigger] s[i]) by {
        assert(s[i] == key[i]);
    }
    no_quote_is_open(s, n);
    run_starts_at_the_front(s, n);
    assert(s[n as int] == sign);
    assert(crate::gui_state::key_char(s[n - 1]));
    assert(crate::gui_state::end_before(s, n) == n);
    assert(s.subrange(0, n as int) =~= key);
    assert(crate::gui_state::raw_key(s, n) == Some(crate::gui_state::RawKeyView::Plain(key)));
    assert(crate::gui_state::assignment_at(s, n as int));
    let t = key + seq![' ', sign] + rest;
    assert forall|i: int| 0 <= i < n implies crate::gui_state::key_char(#[trigger] t[i]) by {
        assert(t[i] == key[i]);
    }
    no_quote_is_open(t, n);
    run_starts_at_the_front(t, n);
    assert(t[n as int] == ' ' && t[n as int + 1] == sign);
    assert(crate::gui_state::scan_state(t, n + 1) == crate::gui_state::scan_step(
        crate::gui_state::scan_state(t, n),
        ' ',
    ));
    assert(crate::gui_state::key_char(t[n - 1]));
    assert(crate::gui_state::end_before(t, n) == n);
    assert(crate::gui_state::end_before(t, n + 1) == n);
    assert(t.subrange(0, n as int) =~= key);
    assert(crate::gui_state::raw_key(t, n + 1) == Some(crate::gui_state::RawKeyView::Plain(key)));
    assert(crate::gui_state::assignment_at(t, n as int + 1));
}

/// A canonical text has the same characters that are no white space, in the same order, and at most
/// one space between two of them; it neither starts nor ends with one.
pub proof fn canonical_texts_keep_their_words(s: Seq<char>)
    ensures
        ({
            let left = crate::gui_state::squeezed(s);
            &&& left.filter(|c: char| !crate::text::white_space(c)) == s.filter(
                |c: char| !crate::text::white_space(c),
            )
            &&& left.len() > 0 ==> !crate::text::white_space(left[0]) && !crate::text::white_space(
                left.last(),
            )
            &&& forall|i: int|
                0 <= i < left.len() && crate::text::white_space(#[trigger] left[i]) ==> left[i]
                    == ' ' && i + 1 < left.len() && !crate::text::white_space(left[i + 1])
        }),
    decreases s.len(),
{
    reveal(Seq::filter);
    let keep = |c: char| !crate::text::white_space(c);
    let left = crate::gui_state::squeezed(s);
    if s.len() > 0 {
        let rest = s.drop_last();
        canonical_texts_keep_their_words(rest);
        let before = crate::gui_state::squeezed(rest);
        let c = s.last();
        if crate::text::white_space(c) {
        } else if s.len() > 1 && crate::text::white_space(s[s.len() - 2]) && before.len() > 0 {
            let spaced = before.push(' ');
            assert(left == spaced.push(c));
            assert(left.drop_last() =~= spaced);
            assert(spaced.drop_last() =~= before);
            assert(spaced.filter(keep) == before.filter(keep));
            assert(left[0] == before[0]);
            assert forall|i: int| 0 <= i < left.len() && crate::text::white_space(
                #[trigger] left[i],
            ) implies left[i] == ' ' && i + 1 < left.len() && !crate::text::white_space(
                left[i + 1],
            ) by {
                if i < before.len() {
                    assert(left[i] == before[i]);
                    assert(left[i + 1] == before[i + 1]);
                }
            }
        } else {
            assert(left == before.push(c));
            assert(left.drop_last() =~= before);
            assert forall|i: int| 0 <= i < left.len() && crate::text::white_space(
                #[trigger] left[i],
            ) implies left[i] == ' ' && i + 1 < left.len() && !crate::text::white_space(
                left[i + 1],
            ) by {
                if i < before.len() {
                    assert(left[i] == before[i]);
                    assert(left[i + 1] == before[i + 1]);
                }
            }
            if before.len() > 0 {
                assert(left[0] == before[0]);
            }
        }
    }
}

/// A byte is written as two digits to the base of sixteen, in small letters, and different bytes are
/// written differently.
pub proof fn bytes_are_written_in_hex(a: Seq<u8>, b: Seq<u8>, byte: u8)
    ensures
        crate::gui_state::hex(a.push(byte)) == crate::gui_state::hex(a) + seq![
            "0123456789abcdef"@[byte as int / 16],
            "0123456789abcdef"@[byte as int % 16],
        ],
        crate::gui_state::hex(Seq::empty()).len() == 0,
        crate::gui_state::hex(a) == crate::gui_state::hex(b) ==> a == b,
    decreases a.len(),
{
    reveal_strlit("0123456789abcdef");
    assert(a.push(byte).drop_last() =~= a);
    let high = (byte / 16) as nat;
    let low = (byte % 16) as nat;
    digit_is_in_place(high);
    digit_is_in_place(low);
    assert(crate::gui_state::hex(a.push(byte)) =~= crate::gui_state::hex(a) + seq![
        crate::gui_state::hex_digit(high),
        crate::gui_state::hex_digit(low),
    ]);
    if crate::gui_state::hex(a) == crate::gui_state::hex(b) {
        hex_tells_apart(a, b);
    }
}

proof fn digit_is_in_place(n: nat)
    requires
        n < 16,
    ensures
        crate::gui_state::hex_digit(n) == "0123456789abcdef"@[n as int],
{
    reveal_strlit("0123456789abcdef");
    let all = "0123456789abcdef"@;
    assert(all[0] == '0' && all[1] == '1' && all[2] == '2' && all[3] == '3' && all[4] == '4');
    assert(all[5] == '5' && all[6] == '6' && all[7] == '7' && all[8] == '8' && all[9] == '9');
    assert(all[10] == 'a' && all[11] == 'b' && all[12] == 'c' && all[13] == 'd' && all[14] == 'e');
    assert(all[15] == 'f');
}

proof fn hex_tells_apart(a: Seq<u8>, b: Seq<u8>)
    requires
        crate::gui_state::hex(a) == crate::gui_state::hex(b),
    ensures
        a == b,
    decreases a.len(),
{
    hex_length(a);
    hex_length(b);
    if a.len() == 0 {
        assert(a =~= b);
    } else {
        let x = crate::gui_state::hex(a);
        let y = crate::gui_state::hex(b);
        let (p, q) = (a.drop_last(), b.drop_last());
        assert(x == crate::gui_state::hex(p).push(
            crate::gui_state::hex_digit((a.last() / 16) as nat),
        ).push(crate::gui_state::hex_digit((a.last() % 16) as nat)));
        assert(y == crate::gui_state::hex(q).push(
            crate::gui_state::hex_digit((b.last() / 16) as nat),
        ).push(crate::gui_state::hex_digit((b.last() % 16) as nat)));
        assert(crate::gui_state::hex(p) =~= x.drop_last().drop_last());
        assert(crate::gui_state::hex(q) =~= y.drop_last().drop_last());
        hex_tells_apart(p, q);
        assert(x.last() == y.last() && x[x.len() - 2] == y[y.len() - 2]);
        assert(a.last() / 16 == b.last() / 16 && a.last() % 16 == b.last() % 16);
        assert(a =~= p.push(a.last()));
        assert(b =~= q.push(b.last()));
    }
}

proof fn hex_length(bytes: Seq<u8>)
    ensures
        crate::gui_state::hex(bytes).len() == 2 * bytes.len(),
    decreases bytes.len(),
{
    if bytes.len() > 0 {
        hex_length(bytes.drop_last());
    }
}

/// A receipt is kept if and only if it has a digest, an absolute path, an `https` URL, and ends
/// after it begins.
pub proof fn sound_receipts_are_kept(receipt: StoredUploadReceipt)
    ensures
        crate::gui_state::receipt_problem(receipt) is None <==> crate::gui_state::is_hex_digest(
            receipt.source_sha256@,
        ) && "/"@.is_prefix_of(receipt.source_path@) && "https://"@.is_prefix_of(
            receipt.remote_url@,
        ) && (receipt.created_at.seconds < receipt.expires_at.seconds || (
        receipt.created_at.seconds == receipt.expires_at.seconds && receipt.created_at.nanos
            < receipt.expires_at.nanos)),
{
}

/// A digest is sixty-four digits to the base of sixteen; a fingerprint is one in small letters.
pub proof fn fingerprints_are_digests(s: Seq<char>)
    ensures
        crate::gui_state::is_fingerprint(s) ==> crate::gui_state::is_hex_digest(s) && s.len() == 64
            && crate::text::lower_text(s) == s,
        crate::gui_state::is_hex_digest(s) ==> crate::gui_state::is_fingerprint(
            crate::text::lower_text(s),
        ),
{
    if crate::gui_state::is_fingerprint(s) {
        assert(crate::text::lower_text(s) =~= s) by {
            assert forall|i: int| 0 <= i < s.len() implies crate::text::lower_text(s)[i] == s[i] by {
                assert(crate::gui_state::lower_hex(s[i]));
            }
        }
    }
    if crate::gui_state::is_hex_digest(s) {
        let small = crate::text::lower_text(s);
        assert forall|i: int| 0 <= i < small.len() implies crate::gui_state::lower_hex(
            #[trigger] small[i],
        ) by {
            assert(crate::gui_state::lower_hex(s[i]) || 'A' <= s[i] <= 'F');
        }
    }
}

/// A record of an uncertain submission is kept only with a fingerprint, and says nothing of what the
/// provider answered.
pub proof fn records_keep_no_answers(record: UncertainSubmissionRecord)
    ensures
        crate::gui_state::record_problem(record) is None <==> crate::gui_state::is_fingerprint(
            record.draft_fingerprint@,
        ) && record.message@ == crate::gui_state::UNCERTAIN_SUBMISSION_MESSAGE@,
{
}

/// Whether a text of the editor can be kept.
pub open spec fn keepable(text: Seq<char>, max_bytes: nat) -> bool {
    vstd::utf8::encode_utf8(text).len() <= max_bytes && forall|i: int|
        0 <= i < text.len() && (#[trigger] text[i] <= '\u{1f}' || '\u{7f}' <= text[i] <= '\u{9f}')
            ==> text[i] == '\n' || text[i] == '\r' || text[i] == '\t'
}

/// What the editor holds is kept if and only if none of its texts is too large, none has a control
/// character beside those that end lines and set tabs, there are not too many fields, each field has
/// a name, and nothing is a credential.
pub proof fn sound_editors_are_kept(state: DraftEditorState)
    ensures
        crate::gui_state::editor_problem(state) is None <==> keepable(state.seed_text@, 1024)
            && keepable(state.advanced_json_text@, 512 * 1024) && state.schema_text@.len() <= 256
            && !crate::gui_state::text_has_credential(state.seed_text@)
            && !crate::gui_state::text_has_credential(state.advanced_json_text@) && forall|i: int|
            0 <= i < state.schema_text@.len() ==> sound_entry(#[trigger] state.schema_text@[i]),
{
    text_is_kept("seed"@, state.seed_text@, 1024);
    text_is_kept("advanced JSON"@, state.advanced_json_text@, 524288);
    entries_are_kept(state.schema_text@);
}

/// Whether a field of the editor can be kept.
pub open spec fn sound_entry(entry: SchemaText) -> bool {
    keepable(entry.name@, 512) && keepable(entry.value@, 64 * 1024) && crate::text::trimmed(
        entry.name@,
    ).len() > 0 && !crate::gui_state::credential_name(entry.name@)
        && !crate::gui_state::text_has_credential(entry.value@)
}

proof fn text_is_kept(label: Seq<char>, value: Seq<char>, max_bytes: nat)
    ensures
        crate::gui_state::editor_text_problem(label, value, max_bytes) is None <==> keepable(
            value,
            max_bytes,
        ),
{
    if keepable(value, max_bytes) {
        assert forall|i: int| 0 <= i < value.len() implies !crate::gui_state::forbidden_control(
            #[trigger] value[i],
        ) by {}
    }
    if !(exists|i: int|
        0 <= i < value.len() && crate::gui_state::forbidden_control(#[trigger] value[i])) {
        assert forall|i: int| 0 <= i < value.len() && (#[trigger] value[i] <= '\u{1f}' || '\u{7f}'
            <= value[i] <= '\u{9f}') implies value[i] == '\n' || value[i] == '\r' || value[i]
            == '\t' by {
            assert(!crate::gui_state::forbidden_control(value[i]));
        }
    }
}

proof fn entries_are_kept(entries: Seq<SchemaText>)
    ensures
        crate::gui_state::schema_texts_problem(entries) is None <==> forall|i: int|
            0 <= i < entries.len() ==> sound_entry(#[trigger] entries[i]),
    decreases entries.len(),
{
    if entries.len() > 0 {
        let rest = entries.drop_last();
        entries_are_kept(rest);
        text_is_kept("schema field name"@, entries.last().name@, 512);
        text_is_kept("schema field value"@, entries.last().value@, 65536);
        assert(entries[entries.len() - 1] == entries.last());
        if forall|i: int| 0 <= i < entries.len() ==> sound_entry(#[trigger] entries[i]) {
            assert forall|i: int| 0 <= i < rest.len() implies sound_entry(#[trigger] rest[i]) by {
                assert(rest[i] == entries[i]);
            }
        }
        if crate::gui_state::schema_texts_problem(entries) is None {
            assert forall|i: int| 0 <= i < entries.len() implies sound_entry(
                #[trigger] entries[i],
            ) by {
                if i < rest.len() {
                    assert(rest[i] == entries[i]);
                }
            }
        }
    }
}

proof fn end_stands_behind_the_slash(front: Seq<char>, id: Seq<char>)
    requires
        !id.contains('/'),
    ensures
        crate::domain::behind_last_slash(front + seq!['/'] + id) == id,
    decreases id.len(),
{
    let all = front + seq!['/'] + id;
    if id.len() > 0 {
        let rest = id.drop_last();
        assert(id.contains(id.last()));
        assert(!rest.contains('/')) by {
            if rest.contains('/') {
                assert(id[rest.index_of('/')] == '/');
            }
        }
        end_stands_behind_the_slash(front, rest);
        assert(all.drop_last() =~= front + seq!['/'] + rest);
        assert(all.last() == id.last());
        assert(rest.push(id.last()) =~= id);
    } else {
        assert(all.last() == '/');
        assert(id =~= Seq::<char>::empty());
    }
}

/// The identifier of a job at OpenRouter stands last in its URL, with or without a slash behind it;
/// that of a job at fal.ai stands in its locator.
pub proof fn jobs_are_named_by_their_urls(
    front: Seq<char>,
    id: Seq<char>,
    endpoint_id: Seq<char>,
    status_url: Option<Seq<char>>,
    response_url: Option<Seq<char>>,
)
    requires
        id.len() > 0,
        !id.contains('/'),
    ensures
        (LocatorView::OpenRouter { polling_url: front + seq!['/'] + id }).job_id() == id,
        (LocatorView::OpenRouter { polling_url: (front + seq!['/'] + id).push('/') }).job_id()
            == id,
        (LocatorView::OpenRouter { polling_url: front }).provider() == "openrouter"@,
        (LocatorView::Fal { endpoint_id, request_id: id, status_url, response_url }).job_id() == id,
        (LocatorView::Fal { endpoint_id, request_id: id, status_url, response_url }).provider()
            == "fal"@,
{
    let url = front + seq!['/'] + id;
    assert(id.contains(id.last()));
    assert(url.last() == id.last());
    end_stands_behind_the_slash(front, id);
    assert(url.push('/').drop_last() =~= url);
    assert(url.push('/').last() == '/');
    assert(crate::urls::without_end_slashes(url) == url);
    assert(crate::urls::without_end_slashes(url.push('/')) == url);
}

/// A moment lies before another by its seconds, and by its nanoseconds within one second; no moment
/// lies before itself.
pub proof fn moments_are_ordered(a: Timestamp, b: Timestamp)
    ensures
        a.seconds < b.seconds ==> a.before(b) && !b.before(a),
        a.seconds == b.seconds ==> (a.before(b) <==> a.nanos < b.nanos),
        !a.before(a),
{
}

} // verus!
