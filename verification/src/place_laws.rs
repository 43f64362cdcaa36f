//! What texts, URLs and paths promise: what is cut off a text and what is left of it, which numbers
//! are read back, which hosts are public, and what a path's parts are.

use crate::domain::LocatorView;
use crate::providers::ProviderErrorKind;
use crate::urls::UrlView;
use vstd::prelude::*;

verus! {

/// Small and capital letters are the twenty-six of ASCII; every other character stands for itself.
pub proof fn letters_have_two_cases(c: char)
    ensures
        'A' <= c <= 'Z' ==> crate::text::lower(c) as u32 == c as u32 + 32 && crate::text::upper(
            crate::text::lower(c),
        ) == c,
        'a' <= c <= 'z' ==> crate::text::upper(c) as u32 == c as u32 - 32 && crate::text::lower(
            crate::text::upper(c),
        ) == c,
        !('A' <= c <= 'Z') ==> crate::text::lower(c) == c,
        !('a' <= c <= 'z') ==> crate::text::upper(c) == c,
        crate::text::lower(crate::text::lower(c)) == crate::text::lower(c),
{
}

/// White space is what separates words, and no letter or digit is.
pub proof fn spaces_are_white(c: char)
    ensures
        crate::text::white_space(' ') && crate::text::white_space('\t') && crate::text::white_space(
            '\n',
        ) && crate::text::white_space('\r') && crate::text::white_space('\u{a0}')
            && crate::text::white_space('\u{3000}'),
        '!' <= c <= '~' ==> !crate::text::white_space(c),
{
}

proof fn start_is_trimmed(s: Seq<char>) -> (n: int)
    ensures
        0 <= n <= s.len(),
        crate::text::trim_start(s) == s.skip(n),
        forall|i: int| 0 <= i < n ==> crate::text::white_space(#[trigger] s[i]),
        n < s.len() ==> !crate::text::white_space(s[n]),
    decreases s.len(),
{
    if s.len() > 0 && crate::text::white_space(s[0]) {
        let rest = s.skip(1);
        let n = start_is_trimmed(rest);
        assert(rest.skip(n) =~= s.skip(n + 1));
        assert forall|i: int| 0 <= i < n + 1 implies crate::text::white_space(#[trigger] s[i]) by {
            if i > 0 {
                assert(rest[i - 1] == s[i]);
            }
        }
        n + 1
    } else {
        assert(s.skip(0) =~= s);
        0
    }
}

proof fn end_is_trimmed(s: Seq<char>) -> (n: int)
    ensures
        0 <= n <= s.len(),
        crate::text::trim_end(s) == s.take(n),
        forall|i: int| n <= i < s.len() ==> crate::text::white_space(#[trigger] s[i]),
        n > 0 ==> !crate::text::white_space(s[n - 1]),
    decreases s.len(),
{
    if s.len() > 0 && crate::text::white_space(s.last()) {
        let rest = s.drop_last();
        let n = end_is_trimmed(rest);
        assert(rest.take(n) =~= s.take(n));
        assert forall|i: int| n <= i < s.len() implies crate::text::white_space(
            #[trigger] s[i],
        ) by {
            if i < rest.len() {
                assert(rest[i] == s[i]);
            }
        }
        n
    } else {
        assert(s.take(s.len() as int) =~= s);
        s.len() as int
    }
}

/// A text is trimmed by cutting off the white space at its ends, all of it and nothing else.
pub proof fn only_white_space_is_trimmed(s: Seq<char>) -> (cut: (int, int))
    ensures
        0 <= cut.0 <= cut.1 <= s.len(),
        crate::text::trimmed(s) == s.subrange(cut.0, cut.1),
        forall|i: int|
            0 <= i < s.len() && !(cut.0 <= i < cut.1) ==> crate::text::white_space(#[trigger] s[i]),
        crate::text::trimmed(s).len() > 0 ==> !crate::text::white_space(crate::text::trimmed(s)[0])
            && !crate::text::white_space(crate::text::trimmed(s).last()),
{
    let a = start_is_trimmed(s);
    let mid = s.skip(a);
    let b = end_is_trimmed(mid);
    assert(mid.take(b) =~= s.subrange(a, a + b));
    assert forall|i: int| 0 <= i < s.len() && !(a <= i < a + b) implies crate::text::white_space(
        #[trigger] s[i],
    ) by {
        if i >= a {
            assert(mid[i - a] == s[i]);
        }
    }
    (a, a + b)
}

/// A number is read back from its numeral, which has no needless zero.
pub proof fn numerals_are_read_back(n: nat)
    ensures
        crate::text::all_digits(crate::text::numeral(n)),
        crate::text::digits_value(crate::text::numeral(n)) == n,
        n > 0 ==> crate::text::numeral(n)[0] != '0',
        n <= u64::MAX ==> crate::text::parsed_unsigned(crate::text::numeral(n), u64::MAX as nat)
            == Some(n),
    decreases n,
{
    let text = crate::text::numeral(n);
    if n < 10 {
        assert(text == seq![crate::text::digit(n)]);
        assert(text.drop_last() =~= Seq::<char>::empty());
        assert(crate::text::digits_value(text.drop_last()) == 0);
        assert(crate::text::is_digit(text[0]));
        assert(crate::text::digits_value(text) == n);
    } else {
        let rest = crate::text::numeral(n / 10);
        numerals_are_read_back(n / 10);
        assert(text == rest.push(crate::text::digit(n % 10)));
        assert(text.drop_last() =~= rest);
        assert forall|i: int| 0 <= i < text.len() implies crate::text::is_digit(
            #[trigger] text[i],
        ) by {
            if i < rest.len() {
                assert(text[i] == rest[i]);
            }
        }
        assert(crate::text::digits_value(text) == (n / 10) * 10 + n % 10);
        assert(text[0] == rest[0]);
    }
    assert(crate::text::is_digit(text[0]));
}

/// A whole number is read back from its numeral with its sign.
pub proof fn signed_numerals_are_read_back(n: i64)
    ensures
        crate::text::parsed_signed(crate::text::signed_numeral(n as int)) == Some(n as int),
{
    let text = crate::text::signed_numeral(n as int);
    if n < 0 {
        let size = (-(n as int)) as nat;
        numerals_are_read_back(size);
        assert(text.skip(1) =~= crate::text::numeral(size));
    } else {
        numerals_are_read_back(n as nat);
        assert(crate::text::is_digit(text[0]));
    }
}

/// A text comes before every longer one that starts with it, and otherwise by the first character
/// in which two texts differ.
pub proof fn texts_are_ordered_by_their_first_difference(a: Seq<char>, b: Seq<char>, n: int)
    requires
        0 <= n <= a.len(),
        n <= b.len(),
        a.take(n) == b.take(n),
    ensures
        n == a.len() && n < b.len() ==> crate::text::precedes(a, b),
        n == b.len() ==> !crate::text::precedes(a, b),
        n < a.len() && n < b.len() && a[n] != b[n] ==> (crate::text::precedes(a, b) <==> a[n]
            < b[n]),
    decreases n,
{
    if n > 0 {
        assert(a[0] == a.take(n)[0] && b[0] == b.take(n)[0]);
        assert(a.skip(1).take(n - 1) =~= a.take(n).skip(1));
        assert(b.skip(1).take(n - 1) =~= b.take(n).skip(1));
        texts_are_ordered_by_their_first_difference(a.skip(1), b.skip(1), n - 1);
    }
}

/// Slashes at the end are cut off, all of them and nothing else.
pub proof fn only_end_slashes_are_cut(s: Seq<char>)
    ensures
        ({
            let left = crate::urls::without_end_slashes(s);
            &&& left.len() <= s.len()
            &&& left == s.take(left.len() as int)
            &&& left.len() > 0 ==> left.last() != '/'
            &&& forall|i: int| left.len() <= i < s.len() ==> #[trigger] s[i] == '/'
        }),
    decreases s.len(),
{
    let left = crate::urls::without_end_slashes(s);
    if s.len() > 0 && s.last() == '/' {
        let rest = s.drop_last();
        only_end_slashes_are_cut(rest);
        assert(rest.take(left.len() as int) =~= s.take(left.len() as int));
        assert forall|i: int| left.len() <= i < s.len() implies #[trigger] s[i] == '/' by {
            if i < rest.len() {
                assert(rest[i] == s[i]);
            }
        }
    } else {
        assert(s.take(s.len() as int) =~= s);
    }
}

/// Slashes at both ends are cut off, and nothing else: what is left neither starts nor ends with
/// one, and a text without them stays.
pub proof fn only_outer_slashes_are_cut(s: Seq<char>)
    ensures
        ({
            let left = crate::urls::without_slashes(s);
            &&& left.len() > 0 ==> left[0] != '/' && left.last() != '/'
            &&& s.len() > 0 && s[0] != '/' && s.last() != '/' ==> left == s
            &&& s.len() > 0 && s[0] == '/' ==> left == crate::urls::without_slashes(s.skip(1))
        }),
    decreases s.len(),
{
    if s.len() > 0 && s[0] == '/' {
        only_outer_slashes_are_cut(s.skip(1));
    } else {
        only_end_slashes_are_cut(s);
        let left = crate::urls::without_end_slashes(s);
        if left.len() > 0 {
            assert(left[0] == s[0]);
        }
    }
}

/// The addresses that nobody outside can reach: private, local, link-local, unset, broadcast and
/// for documentation. Every other address is reachable, and so is a host without an address.
pub proof fn some_addresses_are_not_public(url: UrlView, b: Seq<u8>)
    requires
        url.ipv4 == Some(b),
        b.len() == 4,
    ensures
        b[0] == 10 ==> url.unroutable(),
        b[0] == 172 && 16 <= b[1] <= 31 ==> url.unroutable(),
        b[0] == 192 && b[1] == 168 ==> url.unroutable(),
        b[0] == 127 ==> url.unroutable(),
        b[0] == 169 && b[1] == 254 ==> url.unroutable(),
        b == seq![0u8, 0, 0, 0] ==> url.unroutable(),
        b == seq![255u8, 255, 255, 255] ==> url.unroutable(),
        b[0] == 192 && b[1] == 0 && b[2] == 2 ==> url.unroutable(),
        b[0] == 198 && b[1] == 51 && b[2] == 100 ==> url.unroutable(),
        b[0] == 203 && b[1] == 0 && b[2] == 113 ==> url.unroutable(),
        b[0] != 0 && b[0] != 10 && b[0] != 127 && b[0] != 169 && b[0] != 172 && b[0] != 192 && b[0]
            != 198 && b[0] != 203 && b[0] != 255 ==> !url.unroutable(),
        b[0] == 172 && !(16 <= b[1] <= 31) ==> !url.unroutable(),
        b[0] == 192 && b[1] != 168 && b[1] != 0 ==> !url.unroutable(),
{
}

/// A URL is plain where it uses HTTPS, names a host, and carries no name and no password.
pub proof fn plain_urls_carry_no_credentials(url: UrlView)
    ensures
        url.plain_https() <==> url.scheme == "https"@ && url.host is Some && url.username
            == Seq::<char>::empty() && !url.has_password,
        url.plain_https() ==> crate::providers::fal_endpoints::redirect_target(Some(url)) == Ok::<
            Seq<char>,
            Seq<char>,
        >(url.text),
        !url.plain_https() ==> crate::providers::fal_endpoints::redirect_target(Some(url)) is Err,
        crate::providers::fal_endpoints::redirect_target(None) is Err,
        crate::providers::fal_endpoints::upload_complaint(url) is None <==> url.plain_https()
            && !url.has_fragment && !url.local_host() && !url.unroutable(),
        crate::providers::fal_endpoints::usable_base(url) <==> url.plain_https() && !url.has_query
            && !url.has_fragment,
{
    if url.username.len() == 0 {
        assert(url.username =~= Seq::<char>::empty());
    }
}

/// The client can be set up with a key without white space and with the three services of fal.ai.
pub proof fn the_services_are_accepted(
    key: Seq<char>,
    platform: UrlView,
    queue: UrlView,
    storage: UrlView,
)
    requires
        platform.plain_https() && !platform.has_query && !platform.has_fragment,
        queue.plain_https() && !queue.has_query && !queue.has_fragment,
        storage.plain_https() && !storage.has_query && !storage.has_fragment,
        platform.host == Some("api.fal.ai"@),
        queue.host == Some("queue.fal.run"@),
        storage.host == Some("rest.fal.ai"@),
        crate::providers::fal_endpoints::normalized_base(platform) is Some,
        crate::providers::fal_endpoints::normalized_base(queue) is Some,
        crate::providers::fal_endpoints::normalized_base(storage) is Some,
    ensures
        crate::providers::fal_endpoints::setup_complaint(
            key,
            Some(platform),
            Some(queue),
            Some(storage),
        ) is None <==> key.len() > 0 && forall|i: int|
            0 <= i < key.len() ==> !crate::text::white_space(#[trigger] key[i]),
        crate::providers::fal_endpoints::setup_complaint(key, None, Some(queue), Some(storage))
            is Some,
        crate::providers::fal_endpoints::setup_complaint(key, Some(platform), None, Some(storage))
            is Some,
        crate::providers::fal_endpoints::setup_complaint(key, Some(platform), Some(queue), None)
            is Some,
{
}

/// A page of the catalog is asked for by its category, active models only, fifty at a time, and from
/// the cursor on where there is one.
pub proof fn pages_are_asked_for(category: Seq<char>, cursor: Option<Seq<char>>)
    ensures
        ({
            let names = crate::providers::fal_endpoints::page_names(cursor is Some);
            let values = crate::providers::fal_endpoints::page_values(category, cursor);
            &&& names.len() == values.len()
            &&& names[0] == "category"@ && values[0] == category
            &&& names[1] == "status"@ && values[1] == "active"@
            &&& names[2] == "limit"@ && values[2] == "50"@
            &&& cursor is None ==> names.len() == 3
            &&& cursor matches Some(from) ==> names.len() == 4 && names[3] == "cursor"@ && values[3]
                == from
        }),
{
}

proof fn full_parts_are_kept(list: Seq<Seq<char>>)
    requires
        forall|i: int| 0 <= i < list.len() ==> (#[trigger] list[i]).len() > 0,
    ensures
        crate::providers::fal_endpoints::nonempty(list) == list,
    decreases list.len(),
{
    if list.len() > 0 {
        let rest = list.drop_last();
        assert forall|i: int| 0 <= i < rest.len() implies (#[trigger] rest[i]).len() > 0 by {
            assert(rest[i] == list[i]);
        }
        full_parts_are_kept(rest);
        assert(list[list.len() - 1] == list.last());
        assert(rest.push(list.last()) =~= list);
    }
}

proof fn position_is_first(front: Seq<Seq<char>>, text: Seq<char>, behind: Seq<Seq<char>>)
    requires
        !front.contains(text),
        behind.len() > 0,
        behind[0] == text,
    ensures
        crate::providers::fal_endpoints::first_position(front + behind, text) == Some(front.len()),
    decreases front.len(),
{
    let all = front + behind;
    if front.len() > 0 {
        let rest = front.skip(1);
        assert(all[0] == front[0]);
        assert(front.contains(front[0]));
        assert(all.skip(1) =~= rest + behind);
        assert(!rest.contains(text)) by {
            if rest.contains(text) {
                assert(front[rest.index_of(text) + 1] == text);
            }
        }
        position_is_first(rest, text, behind);
    } else {
        assert(all =~= behind);
    }
}

/// A job is imported from the URL of its request at the queue: the model stands before `requests`,
/// the identifier behind it, and the URL itself is kept as that for the status or the answer where
/// it ends so. URLs of other hosts, and any that carry credentials, are refused as unsafe.
pub proof fn jobs_are_imported_from_their_urls(
    url: UrlView,
    front: Seq<Seq<char>>,
    id: Seq<char>,
    end: Seq<Seq<char>>,
)
    requires
        url.segments == Some(front + (seq!["requests"@, id] + end)),
        front.len() > 0,
        !front.contains("requests"@),
        id.len() > 0,
        forall|i: int| 0 <= i < front.len() ==> (#[trigger] front[i]).len() > 0,
        end.len() == 0 || end == seq!["status"@] || end == seq!["response"@],
    ensures
        url.scheme == "https"@ && url.host == Some("queue.fal.run"@) && url.username.len() == 0
            && !url.has_password ==> crate::providers::fal_endpoints::imported(url) == Ok::<
            LocatorView,
            (ProviderErrorKind, Seq<char>),
        >(
            LocatorView::Fal {
                endpoint_id: crate::paths::slashed(front),
                request_id: id,
                status_url: if end.len() == 1 && end[0] == "status"@ {
                    Some(url.text)
                } else {
                    None
                },
                response_url: if end.len() == 1 && end[0] == "response"@ {
                    Some(url.text)
                } else {
                    None
                },
            },
        ),
        url.scheme != "https"@ || url.host != Some("queue.fal.run"@) || url.username.len() > 0
            || url.has_password ==> (crate::providers::fal_endpoints::imported(url) matches Err(e)
            && e.0 == ProviderErrorKind::UnsafeEndpoint),
{
    reveal_strlit("requests");
    reveal_strlit("status");
    reveal_strlit("response");
    assert("requests"@.len() == 8 && "status"@.len() == 6 && "response"@.len() == 8);
    let behind = seq!["requests"@, id] + end;
    let all = front + behind;
    assert forall|i: int| 0 <= i < all.len() implies (#[trigger] all[i]).len() > 0 by {
        if i < front.len() {
            assert(all[i] == front[i]);
        } else {
            assert(all[i] == behind[i - front.len()]);
        }
    }
    full_parts_are_kept(all);
    position_is_first(front, "requests"@, behind);
    assert(all.take(front.len() as int) =~= front);
    assert(all[front.len() as int + 1] == id);
    assert(all.skip(front.len() as int + 2) =~= end);
    if end.len() == 0 {
        assert(end =~= Seq::<Seq<char>>::empty());
    }
    if end == seq!["status"@] {
        assert(seq!["response"@][0] != end[0]);
    }
    if end == seq!["response"@] {
        assert(seq!["status"@][0] != end[0]);
    }
    if end.len() == 0 {
        assert(end != seq!["status"@] && end != seq!["response"@]) by {
            assert(seq!["status"@].len() == 1 && seq!["response"@].len() == 1);
        }
    }
}

/// What stands below an upload's place stands directly below it, with one slash between.
pub proof fn children_stand_below(path: Seq<char>, suffix: Seq<char>)
    requires
        path.len() > 0,
        path.last() != '/',
    ensures
        crate::providers::fal_endpoints::child_path(path, suffix) == path + "/"@ + suffix,
        crate::providers::fal_endpoints::child_path(path.push('/'), suffix) == path + "/"@ + suffix,
{
    assert(path.push('/').drop_last() =~= path);
}

proof fn folded_has_no_dots(parts: Seq<Seq<char>>)
    ensures
        forall|i: int|
            0 <= i < crate::paths::folded(parts).len() ==> #[trigger] crate::paths::folded(parts)[i]
                != "."@ && crate::paths::folded(parts)[i] != ".."@,
        (forall|i: int| 0 <= i < parts.len() ==> #[trigger] parts[i] != "."@ && parts[i] != ".."@)
            ==> crate::paths::folded(parts) == parts,
    decreases parts.len(),
{
    if parts.len() > 0 {
        let rest = parts.drop_last();
        folded_has_no_dots(rest);
        let before = crate::paths::folded(rest);
        if forall|i: int| 0 <= i < parts.len() ==> #[trigger] parts[i] != "."@ && parts[i] != ".."@ {
            assert forall|i: int| 0 <= i < rest.len() implies #[trigger] rest[i] != "."@ && rest[i]
                != ".."@ by {
                assert(rest[i] == parts[i]);
            }
            assert(parts[parts.len() - 1] == parts.last());
            assert(rest.push(parts.last()) =~= parts);
        }
    }
}

/// The parts of a path are what stands between its slashes; a part for the place itself does not
/// count, and one for the place above takes back the part before it.
pub proof fn paths_are_compared_without_detours(
    parts: Seq<Seq<char>>,
    part: Seq<char>,
)
    requires
        part != "."@,
        part != ".."@,
    ensures
        crate::paths::folded(parts.push("."@)) == crate::paths::folded(parts),
        crate::paths::folded(parts.push(part).push(".."@)) == crate::paths::folded(parts),
        crate::paths::folded(parts.push(part)) == crate::paths::folded(parts).push(part),
        forall|i: int|
            0 <= i < crate::paths::folded(parts).len() ==> #[trigger] crate::paths::folded(parts)[i]
                != "."@ && crate::paths::folded(parts)[i] != ".."@,
{
    reveal_strlit(".");
    reveal_strlit("..");
    assert("."@.len() == 1 && ".."@.len() == 2);
    folded_has_no_dots(parts);
    assert(parts.push("."@).drop_last() =~= parts);
    assert(parts.push(part).drop_last() =~= parts);
    assert(parts.push(part).push(".."@).drop_last() =~= parts.push(part));
    assert(crate::paths::folded(parts).push(part).drop_last() =~= crate::paths::folded(parts));
    assert(parts.push(part).last() == part);
    assert(crate::paths::folded(parts.push(part)) == crate::paths::folded(parts).push(part));
    assert(parts.push(part).push(".."@).last() == ".."@);
}

proof fn dot_is_last(name: Seq<char>)
    ensures
        crate::paths::last_dot(name) matches Some(at) ==> at < name.len() && name[at as int] == '.'
            && !name.skip(at as int + 1).contains('.'),
        crate::paths::last_dot(name) is None ==> !name.contains('.'),
    decreases name.len(),
{
    if name.len() > 0 && name.last() != '.' {
        let rest = name.drop_last();
        dot_is_last(rest);
        if let Some(at) = crate::paths::last_dot(name) {
            let end = name.skip(at as int + 1);
            if end.contains('.') {
                let i = end.index_of('.');
                assert(name[at as int + 1 + i] == '.');
                assert(rest.skip(at as int + 1)[i] == '.');
            }
        } else if name.contains('.') {
            let i = name.index_of('.');
            assert(rest[i] == '.');
        }
    } else if name.len() > 0 {
        assert(name.skip(name.len() as int) =~= Seq::<char>::empty());
    }
}

proof fn dot_is_found(stem: Seq<char>, extension: Seq<char>)
    requires
        !extension.contains('.'),
    ensures
        crate::paths::last_dot(stem + seq!['.'] + extension) == Some(stem.len()),
    decreases extension.len(),
{
    let name = stem + seq!['.'] + extension;
    if extension.len() > 0 {
        assert(extension.contains(extension.last()));
        assert(name.last() == extension.last());
        let rest = extension.drop_last();
        assert(!rest.contains('.')) by {
            if rest.contains('.') {
                assert(extension[rest.index_of('.')] == '.');
            }
        }
        dot_is_found(stem, rest);
        assert(name.drop_last() =~= stem + seq!['.'] + rest);
    } else {
        assert(name.last() == '.');
    }
}

/// The extension of a file is what stands behind the last dot of its name, where something stands
/// before that dot; other names have none.
pub proof fn extensions_stand_behind_the_last_dot(path: Seq<char>, stem: Seq<char>, end: Seq<char>)
    ensures
        crate::paths::extension_of(path) matches Some(extension) ==> (crate::paths::name_of(
            path,
        ) matches Some(name) && !extension.contains('.') && name.len() > extension.len() + 1 && name
            == name.take(name.len() - extension.len() - 1) + seq!['.'] + extension),
        crate::paths::name_of(path) == Some(stem + seq!['.'] + end) && !end.contains('.')
            && stem.len() > 0 ==> crate::paths::extension_of(path) == Some(end),
        crate::paths::name_of(path) matches Some(name) ==> (!name.contains('.')
            ==> crate::paths::extension_of(path) is None),
        crate::paths::name_of(path) is None ==> crate::paths::extension_of(path) is None,
{
    if let Some(name) = crate::paths::name_of(path) {
        dot_is_last(name);
        if let Some(at) = crate::paths::last_dot(name) {
            let extension = name.skip(at as int + 1);
            assert(name =~= name.take(name.len() - extension.len() - 1) + seq!['.'] + extension);
        }
        if name == stem + seq!['.'] + end && !end.contains('.') {
            dot_is_found(stem, end);
            assert(name.skip(stem.len() as int + 1) =~= end);
        }
    }
}

/// A path that starts at the root stays when it is joined to another; any other is put behind it,
/// with one slash between.
pub proof fn paths_are_joined_with_a_slash(base: Seq<char>, rest: Seq<char>)
    ensures
        rest.len() > 0 && rest[0] == '/' ==> crate::paths::joined(base, rest) == rest,
        !(rest.len() > 0 && rest[0] == '/') && base.len() > 0 && base.last() != '/'
            ==> crate::paths::joined(base, rest) == base + "/"@ + rest,
        !(rest.len() > 0 && rest[0] == '/') && base.len() > 0 && base.last() == '/'
            ==> crate::paths::joined(base, rest) == base + rest,
        !(rest.len() > 0 && rest[0] == '/') && base.len() == 0 ==> crate::paths::joined(base, rest)
            == rest,
{
    if base.len() == 0 {
        assert(base + rest =~= rest);
    }
}

proof fn parts_order(a: Seq<Seq<char>>, b: Seq<Seq<char>>)
    ensures
        !(crate::paths::parts_before(a, b) && crate::paths::parts_before(b, a)),
    decreases a.len(),
{
    if a.len() > 0 && b.len() > 0 {
        if a[0] == b[0] {
            parts_order(a.skip(1), b.skip(1));
        } else {
            crate::text::precedes_orders(a[0], b[0]);
        }
    }
}

proof fn placing_keeps_paths(list: Seq<Seq<char>>, path: Seq<char>)
    requires
        forall|i: int|
            0 < i < list.len() ==> !crate::paths::path_before(#[trigger] list[i], list[i - 1]),
    ensures
        ({
            let after = crate::paths::path_placed(list, path);
            &&& after.len() == list.len() + 1
            &&& forall|i: int|
                0 < i < after.len() ==> !crate::paths::path_before(#[trigger] after[i], after[i - 1])
            &&& forall|p: Seq<char>| #[trigger] after.contains(p) <==> p == path || list.contains(p)
            &&& after[0] == path || (list.len() > 0 && after[0] == list[0])
        }),
    decreases list.len(),
{
    let after = crate::paths::path_placed(list, path);
    if list.len() == 0 || crate::paths::path_before(path, list[0]) {
        assert(after == seq![path] + list);
        assert forall|i: int| 0 < i < after.len() implies !crate::paths::path_before(
            #[trigger] after[i],
            after[i - 1],
        ) by {
            if i == 1 {
                parts_order(crate::paths::order_key(path), crate::paths::order_key(list[0]));
            } else {
                assert(after[i] == list[i - 1] && after[i - 1] == list[i - 2]);
            }
        }
        assert forall|p: Seq<char>| #[trigger] after.contains(p) <==> p == path || list.contains(
            p,
        ) by {
            assert(after[0] == path);
            if list.contains(p) {
                assert(after[list.index_of(p) + 1] == p);
            }
            if after.contains(p) {
                let i = after.index_of(p);
                if i > 0 {
                    assert(list[i - 1] == p);
                }
            }
        }
    } else {
        let tail = list.skip(1);
        assert forall|i: int| 0 < i < tail.len() implies !crate::paths::path_before(
            #[trigger] tail[i],
            tail[i - 1],
        ) by {
            assert(tail[i] == list[i + 1] && tail[i - 1] == list[i]);
        }
        placing_keeps_paths(tail, path);
        let rest = crate::paths::path_placed(tail, path);
        assert(after == seq![list[0]] + rest);
        assert forall|i: int| 0 < i < after.len() implies !crate::paths::path_before(
            #[trigger] after[i],
            after[i - 1],
        ) by {
            assert(after[i] == rest[i - 1]);
            if i == 1 {
                if rest[0] != path {
                    assert(rest[0] == list[1]);
                }
            } else {
                assert(after[i - 1] == rest[i - 2]);
            }
        }
        assert forall|p: Seq<char>| #[trigger] after.contains(p) <==> p == path || list.contains(
            p,
        ) by {
            assert(after[0] == list[0]);
            assert(rest.contains(p) <==> p == path || tail.contains(p));
            if rest.contains(p) {
                assert(after[rest.index_of(p) + 1] == p);
            }
            if tail.contains(p) {
                assert(list[tail.index_of(p) + 1] == p);
            }
            if list.contains(p) && p != list[0] {
                assert(tail[list.index_of(p) - 1] == p);
            }
            if after.contains(p) {
                let i = after.index_of(p);
                if i > 0 {
                    assert(rest[i - 1] == p);
                }
            }
            assert(list.contains(list[0]));
        }
    }
}

/// Paths in order are the same paths, none of them before the one that it follows.
pub proof fn paths_are_put_in_order(list: Seq<Seq<char>>)
    ensures
        ({
            let ordered = crate::paths::paths_in_order(list);
            &&& ordered.len() == list.len()
            &&& forall|p: Seq<char>| #[trigger] ordered.contains(p) <==> list.contains(p)
            &&& forall|i: int|
                0 < i < ordered.len() ==> !crate::paths::path_before(
                    #[trigger] ordered[i],
                    ordered[i - 1],
                )
        }),
    decreases list.len(),
{
    if list.len() > 0 {
        let rest = list.drop_last();
        paths_are_put_in_order(rest);
        placing_keeps_paths(crate::paths::paths_in_order(rest), list.last());
        let ordered = crate::paths::paths_in_order(list);
        assert forall|p: Seq<char>| #[trigger] ordered.contains(p) <==> list.contains(p) by {
            assert(crate::paths::paths_in_order(rest).contains(p) <==> rest.contains(p));
            assert(list[list.len() - 1] == list.last());
            if rest.contains(p) {
                assert(list[rest.index_of(p)] == p);
            }
            if list.contains(p) && p != list.last() {
                assert(rest[list.index_of(p)] == p);
            }
        }
    }
}

/// Paths are ordered part by part; the root comes first, and a path before what lies below it.
pub proof fn paths_come_before_what_lies_below(a: Seq<Seq<char>>, b: Seq<Seq<char>>)
    requires
        b.len() > 0,
    ensures
        crate::paths::parts_before(a, a + b),
        !crate::paths::parts_before(a + b, a),
        !crate::paths::parts_before(a, a),
    decreases a.len(),
{
    if a.len() > 0 {
        paths_come_before_what_lies_below(a.skip(1), b);
        assert((a + b).skip(1) =~= a.skip(1) + b);
        assert((a + b)[0] == a[0]);
    }
}

} // verus!
