//! URLs as plain values, and the rules on where they may point.

use crate::outside::{append_path, append_query, read_url, replace_path};
use crate::text::{char_from, chars_of, ends_with_text, eq_ignore_ascii_case, same_text, text_of};
use vstd::prelude::*;

verus! {

/// The most bytes of a URL: the `url` crate counts its positions in 32 bits.
pub const MAX_URL_BYTES: u64 = 0xffff_ffff;

/// The most bytes that a character takes in a URL: four, each of them percent-encoded.
pub const MAX_CHAR_BYTES: u64 = 12;

/// How many characters some texts have in all.
pub open spec fn total(list: Seq<Seq<char>>) -> nat
    decreases list.len(),
{
    if list.len() == 0 {
        0
    } else {
        total(list.drop_last()) + list.last().len()
    }
}

/// How much room some texts take in a URL: their characters, and a separator for each of them.
pub open spec fn room(list: Seq<Seq<char>>) -> nat {
    total(list) + list.len()
}

/// A URL, taken apart.
#[derive(Debug)]
pub struct UrlParts {
    pub text: String,
    pub scheme: String,
    pub host: Option<String>,
    pub username: String,
    pub has_password: bool,
    pub has_query: bool,
    pub has_fragment: bool,
    pub path: String,
    pub segments: Option<Vec<String>>,
    /// The host's bytes where it is an IPv4 address.
    pub ipv4: Option<[u8; 4]>,
}

/// The mathematical value of a URL.
pub struct UrlView {
    pub text: Seq<char>,
    pub scheme: Seq<char>,
    pub host: Option<Seq<char>>,
    pub username: Seq<char>,
    pub has_password: bool,
    pub has_query: bool,
    pub has_fragment: bool,
    pub path: Seq<char>,
    pub segments: Option<Seq<Seq<char>>>,
    pub ipv4: Option<Seq<u8>>,
}

impl View for UrlParts {
    type V = UrlView;

    open spec fn view(&self) -> UrlView {
        UrlView {
            text: self.text@,
            scheme: self.scheme@,
            host: crate::domain::opt_view(self.host),
            username: self.username@,
            has_password: self.has_password,
            has_query: self.has_query,
            has_fragment: self.has_fragment,
            path: self.path@,
            segments: match self.segments {
                Some(list) => Some(crate::text::texts(list@)),
                None => None,
            },
            ipv4: match self.ipv4 {
                Some(bytes) => Some(bytes@),
                None => None,
            },
        }
    }
}

impl UrlView {
    /// Whether the URL is HTTPS, names a host and carries no credentials.
    pub open spec fn plain_https(self) -> bool {
        self.scheme == "https"@ && self.host is Some && self.username.len() == 0
            && !self.has_password
    }

    /// Whether the URL's host is `name`.
    pub open spec fn at_host(self, name: Seq<char>) -> bool {
        self.host == Some(name)
    }

    /// Whether the host is named as a local one.
    pub open spec fn local_host(self) -> bool {
        match self.host {
            Some(host) => crate::text::lower_text(host) == crate::text::lower_text("localhost"@)
                || ".localhost"@.is_suffix_of(host) || ".local"@.is_suffix_of(host),
            None => false,
        }
    }

    /// Whether the host is an IPv4 address that the public internet does not route: private,
    /// loopback, link-local, unspecified, broadcast or documentation.
    pub open spec fn unroutable(self) -> bool {
        match self.ipv4 {
            Some(b) => {
                ||| b[0] == 10 || (b[0] == 172 && 16 <= b[1] <= 31) || (b[0] == 192 && b[1] == 168)
                ||| b[0] == 127
                ||| b[0] == 169 && b[1] == 254
                ||| b[0] == 0 && b[1] == 0 && b[2] == 0 && b[3] == 0
                ||| b[0] == 255 && b[1] == 255 && b[2] == 255 && b[3] == 255
                ||| b[0] == 192 && b[1] == 0 && b[2] == 2
                ||| b[0] == 198 && b[1] == 51 && b[2] == 100
                ||| b[0] == 203 && b[1] == 0 && b[2] == 113
            },
            None => false,
        }
    }
}

impl UrlParts {
    /// Whether the URL is HTTPS, names a host and carries no credentials.
    pub fn is_plain_https(&self) -> (b: bool)
        ensures
            b == self@.plain_https(),
    {
        same_text(self.scheme.as_str(), "https") && self.host.is_some()
            && self.username.as_str().is_empty() && !self.has_password
    }

    /// Whether the URL's host is `name`.
    pub fn is_at_host(&self, name: &str) -> (b: bool)
        ensures
            b == self@.at_host(name@),
    {
        match &self.host {
            Some(host) => same_text(host.as_str(), name),
            None => false,
        }
    }

    /// Whether the host is named as a local one.
    pub fn is_local_host(&self) -> (b: bool)
        ensures
            b == self@.local_host(),
    {
        match &self.host {
            Some(host) => eq_ignore_ascii_case(host.as_str(), "localhost") || ends_with_text(
                host.as_str(),
                ".localhost",
            ) || ends_with_text(host.as_str(), ".local"),
            None => false,
        }
    }

    /// Whether the host is an IPv4 address that the public internet does not route.
    pub fn is_unroutable(&self) -> (b: bool)
        ensures
            b == self@.unroutable(),
    {
        match &self.ipv4 {
            Some(b) => {
                let (a, x, y, z): (u8, u8, u8, u8) = (b[0], b[1], b[2], b[3]);
                a == 10 || (a == 172 && 16 <= x && x <= 31) || (a == 192 && x == 168) || a == 127
                    || (a == 169 && x == 254) || (a == 0 && x == 0 && y == 0 && z == 0) || (a == 255
                    && x == 255 && y == 255 && z == 255) || (a == 192 && x == 0 && y == 2) || (a
                    == 198 && x == 51 && y == 100) || (a == 203 && x == 0 && y == 113)
            },
            None => false,
        }
    }
}

/// The non-empty parts between slashes.
pub open spec fn slash_parts(s: Seq<char>) -> Seq<Seq<char>>
    decreases s.len(),
{
    if s.len() == 0 {
        Seq::empty()
    } else if s[0] == '/' {
        slash_parts(s.skip(1))
    } else {
        let n = crate::text::before_char(s, '/') as int;
        proof {
            crate::text::before_char_bound(s, '/');
        }
        seq![s.take(n)] + slash_parts(s.skip(n))
    }
}

proof fn total_splits(a: Seq<Seq<char>>, b: Seq<Seq<char>>)
    ensures
        total(a + b) == total(a) + total(b),
    decreases b.len(),
{
    if b.len() == 0 {
        assert(a + b =~= a);
    } else {
        assert((a + b).drop_last() =~= a + b.drop_last());
        total_splits(a, b.drop_last());
    }
}

/// The non-empty parts between slashes.
pub fn split_slashes(s: &str) -> (parts: Vec<String>)
    ensures
        crate::text::texts(parts@) == slash_parts(s@),
{
    let chars = chars_of(s);
    let mut parts: Vec<String> = Vec::new();
    let mut i: usize = 0;
    assert(s@.skip(0) =~= s@);
    assert(crate::text::texts(parts@) =~= Seq::<Seq<char>>::empty());
    while i < chars.len()
        invariant
            i <= chars@.len(),
            chars@ == s@,
            slash_parts(s@) == crate::text::texts(parts@) + slash_parts(s@.skip(i as int)),
        decreases chars@.len() - i,
    {
        let ghost rest = s@.skip(i as int);
        if chars[i] == '/' {
            assert(rest.skip(1) =~= s@.skip(i + 1));
            i = i + 1;
        } else {
            let end: usize = char_from(&chars, i, '/');
            let part = text_of(&chars, i, end);
            let ghost before = crate::text::texts(parts@);
            assert(part@ =~= rest.take(end - i));
            assert(rest.skip(end - i) =~= s@.skip(end as int));
            parts.push(part);
            assert(crate::text::texts(parts@) =~= before + seq![rest.take(end - i)]);
            assert(before + (seq![rest.take(end - i)] + slash_parts(s@.skip(end as int)))
                =~= crate::text::texts(parts@) + slash_parts(s@.skip(end as int)));
            i = end;
        }
    }
    assert(s@.skip(i as int) =~= Seq::<char>::empty());
    assert(crate::text::texts(parts@) + Seq::<Seq<char>>::empty() =~= crate::text::texts(parts@));
    parts
}

/// The text without the slashes at its end.
pub open spec fn without_end_slashes(s: Seq<char>) -> Seq<char>
    decreases s.len(),
{
    if s.len() > 0 && s.last() == '/' {
        without_end_slashes(s.drop_last())
    } else {
        s
    }
}

/// The text without the slashes at its end.
pub fn trim_end_slashes(s: &str) -> (t: String)
    ensures
        t@ == without_end_slashes(s@),
        t@.len() <= s@.len(),
{
    let chars = chars_of(s);
    let mut end: usize = chars.len();
    assert(s@.take(end as int) =~= s@);
    while end > 0 && chars[end - 1] == '/'
        invariant
            end <= chars@.len(),
            chars@ == s@,
            without_end_slashes(s@) == without_end_slashes(s@.take(end as int)),
        decreases end,
    {
        assert(s@.take(end as int).drop_last() =~= s@.take(end - 1));
        end = end - 1;
    }
    let t = text_of(&chars, 0, end);
    assert(t@ =~= s@.take(end as int));
    t
}

/// The text without the slashes at its start and at its end.
pub open spec fn without_slashes(s: Seq<char>) -> Seq<char>
    decreases s.len(),
{
    if s.len() > 0 && s[0] == '/' {
        without_slashes(s.skip(1))
    } else {
        without_end_slashes(s)
    }
}

/// The text without the slashes at its start and at its end.
pub fn trim_slashes(s: &str) -> (t: String)
    ensures
        t@ == without_slashes(s@),
{
    let chars = chars_of(s);
    let mut start: usize = 0;
    assert(s@.skip(0) =~= s@);
    while start < chars.len() && chars[start] == '/'
        invariant
            start <= chars@.len(),
            chars@ == s@,
            without_slashes(s@) == without_slashes(s@.skip(start as int)),
        decreases chars@.len() - start,
    {
        assert(s@.skip(start as int).skip(1) =~= s@.skip(start + 1));
        start = start + 1;
    }
    let rest = text_of(&chars, start, chars.len());
    assert(rest@ =~= s@.skip(start as int));
    trim_end_slashes(rest.as_str())
}

/// Whether a text is a URL into which so many characters and separators fit beside what it has,
/// even if all of them are percent-encoded.
pub open spec fn fits(base: Seq<char>, more: nat) -> bool {
    crate::outside::url_of(base) matches Some(url) && url.text.len() + MAX_CHAR_BYTES * more
        <= MAX_URL_BYTES
}

/// A URL with segments behind its path and pairs behind its query. There is none where `base` is
/// no URL that can have segments, or where the whole might not fit into a URL.
pub open spec fn extended_url(
    base: Seq<char>,
    segments: Seq<Seq<char>>,
    names: Seq<Seq<char>>,
    values: Seq<Seq<char>>,
) -> Option<Seq<char>> {
    if !fits(base, room(segments)) {
        None
    } else {
        match crate::outside::appended_of(base, segments) {
            Some(text) => if names.len() == 0 {
                Some(text)
            } else if !fits(text, room(names) + room(values)) {
                None
            } else {
                crate::outside::queried_of(text, names, values)
            },
            None => None,
        }
    }
}

/// The room that some texts take beside what is taken, unless no URL has that much.
fn add_room(taken: u64, list: &Vec<String>) -> (r: Option<u64>)
    requires
        taken <= MAX_URL_BYTES,
    ensures
        match r {
            Some(n) => n == taken + room(crate::text::texts(list@)) && n <= MAX_URL_BYTES,
            None => taken + room(crate::text::texts(list@)) > MAX_URL_BYTES,
        },
{
    let ghost view = crate::text::texts(list@);
    let mut sum: u64 = taken;
    let mut i: usize = 0;
    assert(view.take(0) =~= Seq::<Seq<char>>::empty());
    while i < list.len()
        invariant
            i <= list@.len(),
            view == crate::text::texts(list@),
            sum == taken + room(view.take(i as int)),
            sum <= MAX_URL_BYTES,
        decreases list@.len() - i,
    {
        proof {
            assert(view.take(i + 1).drop_last() =~= view.take(i as int));
            assert(view.take(i + 1).last() == list@[i as int]@);
            assert(view =~= view.take(i + 1) + view.skip(i + 1));
            total_splits(view.take(i + 1), view.skip(i + 1));
        }
        let n: u64 = list[i].as_str().unicode_len() as u64;
        if n >= MAX_URL_BYTES - sum {
            return None;
        }
        sum = sum + n + 1;
        i = i + 1;
    }
    assert(view.take(view.len() as int) =~= view);
    Some(sum)
}

fn has_room(base: &str, more: u64) -> (b: bool)
    requires
        more <= MAX_URL_BYTES,
    ensures
        b == fits(base@, more as nat),
{
    match read_url(base) {
        Some(url) => {
            let size: u64 = url.text.as_str().unicode_len() as u64;
            size <= MAX_URL_BYTES && more * MAX_CHAR_BYTES <= MAX_URL_BYTES - size
        },
        None => false,
    }
}

/// Puts segments behind a URL's path and pairs behind its query.
pub fn extend_url(
    base: &str,
    segments: &Vec<String>,
    names: &Vec<String>,
    values: &Vec<String>,
) -> (r: Option<String>)
    requires
        names@.len() == values@.len(),
    ensures
        crate::domain::opt_view(r) == extended_url(
            base@,
            crate::text::texts(segments@),
            crate::text::texts(names@),
            crate::text::texts(values@),
        ),
{
    let more = add_room(0, segments)?;
    if !has_room(base, more) {
        return None;
    }
    let text = append_path(base, segments)?;
    if names.len() == 0 {
        return Some(text);
    }
    let more = match add_room(0, names) {
        Some(taken) => add_room(taken, values),
        None => None,
    };
    match more {
        Some(more) => if has_room(text.as_str(), more) {
            append_query(text.as_str(), names, values)
        } else {
            None
        },
        None => None,
    }
}

/// A URL with another path, unless the whole might not fit into a URL.
pub open spec fn url_with_path(base: Seq<char>, path: Seq<char>) -> Option<Seq<char>> {
    if !fits(base, path.len() + 1) {
        None
    } else {
        crate::outside::repathed_of(base, path)
    }
}

/// Gives a URL another path.
pub fn with_path(base: &str, path: &str) -> (r: Option<String>)
    ensures
        crate::domain::opt_view(r) == url_with_path(base@, path@),
{
    let more: u64 = path.unicode_len() as u64;
    if more >= MAX_URL_BYTES || !has_room(base, more + 1) {
        return None;
    }
    replace_path(base, path)
}

} // verus!
