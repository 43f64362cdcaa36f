//! Text as a sequence of characters: searching, trimming, case folding, replacing and numerals.

use vstd::prelude::*;

verus! {

/// `String::push` appends one character at the end.
pub assume_specification[ String::push ](s: &mut String, c: char)
    ensures
        final(s)@ == old(s)@.push(c),
;

/// `str` equality compares the two texts character by character.
pub assume_specification[ <str as PartialEq>::eq ](a: &str, b: &str) -> (same: bool)
    ensures
        same == (a@ == b@),
;

/// Whether the two texts have the same characters.
pub fn same_text(a: &str, b: &str) -> (same: bool)
    ensures
        same == (a@ == b@),
{
    *a == *b
}

/// Whether `c` has the Unicode `White_Space` property.
pub open spec fn white_space(c: char) -> bool {
    ||| '\u{9}' <= c <= '\u{d}'
    ||| c == ' '
    ||| c == '\u{85}'
    ||| c == '\u{a0}'
    ||| c == '\u{1680}'
    ||| '\u{2000}' <= c <= '\u{200a}'
    ||| c == '\u{2028}'
    ||| c == '\u{2029}'
    ||| c == '\u{202f}'
    ||| c == '\u{205f}'
    ||| c == '\u{3000}'
}

/// Tests `white_space`.
pub fn is_white_space(c: char) -> (b: bool)
    ensures
        b == white_space(c),
{
    ('\u{9}' <= c && c <= '\u{d}') || c == ' ' || c == '\u{85}' || c == '\u{a0}' || c == '\u{1680}' || (
    '\u{2000}' <= c && c <= '\u{200a}') || c == '\u{2028}' || c == '\u{2029}' || c == '\u{202f}' || c
        == '\u{205f}' || c == '\u{3000}'
}

/// The ASCII lower-case form of `c`; every other character stands for itself.
pub open spec fn lower(c: char) -> char {
    if 'A' <= c <= 'Z' {
        (c as u8 + 32) as char
    } else {
        c
    }
}

/// The ASCII upper-case form of `c`; every other character stands for itself.
pub open spec fn upper(c: char) -> char {
    if 'a' <= c <= 'z' {
        (c as u8 - 32) as char
    } else {
        c
    }
}

/// `s` with every ASCII capital replaced by its small letter.
pub open spec fn lower_text(s: Seq<char>) -> Seq<char> {
    s.map_values(|c: char| lower(c))
}

/// `s` with every ASCII small letter replaced by its capital.
pub open spec fn upper_text(s: Seq<char>) -> Seq<char> {
    s.map_values(|c: char| upper(c))
}

/// Computes `lower`.
pub fn lower_char(c: char) -> (l: char)
    ensures
        l == lower(c),
{
    if 'A' <= c && c <= 'Z' {
        ((c as u8) + 32) as char
    } else {
        c
    }
}

/// Computes `upper`.
pub fn upper_char(c: char) -> (u: char)
    ensures
        u == upper(c),
{
    if 'a' <= c && c <= 'z' {
        ((c as u8) - 32) as char
    } else {
        c
    }
}

/// The characters of `s` in order.
pub fn chars_of(s: &str) -> (v: Vec<char>)
    ensures
        v@ == s@,
{
    let mut v: Vec<char> = Vec::new();
    for c in it: s.chars()
        invariant
            it.seq() == s@,
            v@ == s@.take(it.index() as int),
    {
        v.push(c);
        assert(s@.take(it.index() + 1) =~= s@.take(it.index() as int).push(c));
    }
    assert(s@.take(s@.len() as int) =~= s@);
    v
}

/// The text whose characters are `v[from..to]`.
pub fn text_of(v: &Vec<char>, from: usize, to: usize) -> (s: String)
    requires
        from <= to <= v@.len(),
    ensures
        s@ == v@.subrange(from as int, to as int),
{
    let mut s = String::new();
    let mut i: usize = from;
    while i < to
        invariant
            from <= i <= to <= v@.len(),
            s@ == v@.subrange(from as int, i as int),
        decreases to - i,
    {
        s.push(v[i]);
        i = i + 1;
        assert(v@.subrange(from as int, i as int) =~= v@.subrange(from as int, i - 1).push(v@[i - 1]));
    }
    s
}

/// `s` with every ASCII capital replaced by its small letter.
pub fn ascii_lowercase(s: &str) -> (l: String)
    ensures
        l@ == lower_text(s@),
{
    let mut l = String::new();
    for c in it: s.chars()
        invariant
            it.seq() == s@,
            l@ == lower_text(s@.take(it.index() as int)),
    {
        l.push(lower_char(c));
        assert(lower_text(s@.take(it.index() + 1)) =~= lower_text(s@.take(it.index() as int)).push(
            lower(c),
        ));
    }
    assert(s@.take(s@.len() as int) =~= s@);
    l
}

/// `s` with every ASCII small letter replaced by its capital.
pub fn ascii_uppercase(s: &str) -> (l: String)
    ensures
        l@ == upper_text(s@),
{
    let mut l = String::new();
    for c in it: s.chars()
        invariant
            it.seq() == s@,
            l@ == upper_text(s@.take(it.index() as int)),
    {
        l.push(upper_char(c));
        assert(upper_text(s@.take(it.index() + 1)) =~= upper_text(s@.take(it.index() as int)).push(
            upper(c),
        ));
    }
    assert(s@.take(s@.len() as int) =~= s@);
    l
}

/// Whether the two texts agree up to the case of ASCII letters.
pub fn eq_ignore_ascii_case(a: &str, b: &str) -> (same: bool)
    ensures
        same == (lower_text(a@) == lower_text(b@)),
{
    let x = ascii_lowercase(a);
    let y = ascii_lowercase(b);
    x == y
}

/// Whether `pat` stands in `s` at position `i`.
pub open spec fn occurs_at(s: Seq<char>, pat: Seq<char>, i: int) -> bool {
    0 <= i && i + pat.len() <= s.len() && s.subrange(i, i + pat.len()) == pat
}

/// Whether `pat` stands anywhere in `s`.
pub open spec fn occurs(s: Seq<char>, pat: Seq<char>) -> bool {
    exists|i: int| #[trigger] occurs_at(s, pat, i)
}

/// Whether `pat` stands in `s` at position `i`.
pub fn matches_at(s: &Vec<char>, pat: &Vec<char>, i: usize) -> (b: bool)
    requires
        i <= s@.len(),
    ensures
        b == occurs_at(s@, pat@, i as int),
{
    if s.len() - i < pat.len() {
        return false;
    }
    let mut k: usize = 0;
    while k < pat.len()
        invariant
            k <= pat@.len(),
            i + pat.len() <= s.len(),
            forall|j: int| 0 <= j < k ==> s@[i + j] == #[trigger] pat@[j],
        decreases pat@.len() - k,
    {
        if s[i + k] != pat[k] {
            assert(s@.subrange(i as int, i + pat@.len())[k as int] != pat@[k as int]);
            return false;
        }
        k = k + 1;
    }
    assert(s@.subrange(i as int, i + pat@.len()) =~= pat@);
    true
}

/// Whether `pat` stands anywhere in `s`.
pub fn contains_text(s: &str, pat: &str) -> (b: bool)
    ensures
        b == occurs(s@, pat@),
{
    let v = chars_of(s);
    let p = chars_of(pat);
    let mut i: usize = 0;
    while i < v.len()
        invariant
            i <= v@.len(),
            v@ == s@,
            p@ == pat@,
            forall|j: int| 0 <= j < i ==> !#[trigger] occurs_at(s@, pat@, j),
        decreases v@.len() - i,
    {
        if matches_at(&v, &p, i) {
            return true;
        }
        i = i + 1;
    }
    matches_at(&v, &p, i)
}

/// Whether `s` begins with `pat`.
pub fn starts_with_text(s: &str, pat: &str) -> (b: bool)
    ensures
        b == pat@.is_prefix_of(s@),
{
    let v = chars_of(s);
    let p = chars_of(pat);
    let b = matches_at(&v, &p, 0);
    proof {
        if b {
            assert(pat@ =~= s@.subrange(0, pat@.len() as int));
        }
    }
    b
}

/// Whether `s` ends with `pat`.
pub fn ends_with_text(s: &str, pat: &str) -> (b: bool)
    ensures
        b == pat@.is_suffix_of(s@),
{
    let v = chars_of(s);
    let p = chars_of(pat);
    if v.len() < p.len() {
        return false;
    }
    matches_at(&v, &p, v.len() - p.len())
}

/// `s` without its leading white space.
pub open spec fn trim_start(s: Seq<char>) -> Seq<char>
    decreases s.len(),
{
    if s.len() > 0 && white_space(s[0]) {
        trim_start(s.skip(1))
    } else {
        s
    }
}

/// `s` without its trailing white space.
pub open spec fn trim_end(s: Seq<char>) -> Seq<char>
    decreases s.len(),
{
    if s.len() > 0 && white_space(s.last()) {
        trim_end(s.drop_last())
    } else {
        s
    }
}

/// `s` without white space at either end.
pub open spec fn trimmed(s: Seq<char>) -> Seq<char> {
    trim_end(trim_start(s))
}

/// `s` without white space at either end.
pub fn trim_text<'a>(s: &'a str) -> (t: &'a str)
    ensures
        t@ == trimmed(s@),
{
    let v = chars_of(s);
    let mut from: usize = 0;
    assert(s@.skip(0) =~= s@);
    while from < v.len() && is_white_space(v[from])
        invariant
            from <= v@.len(),
            v@ == s@,
            trim_start(s@) == trim_start(s@.skip(from as int)),
        decreases v@.len() - from,
    {
        assert(s@.skip(from as int).skip(1) =~= s@.skip(from + 1));
        from = from + 1;
    }
    assert(trim_start(s@) == s@.skip(from as int));
    let mut to: usize = v.len();
    assert(s@.subrange(from as int, to as int) =~= s@.skip(from as int));
    while from < to && is_white_space(v[to - 1])
        invariant
            from <= to <= v@.len(),
            v@ == s@,
            trimmed(s@) == trim_end(s@.subrange(from as int, to as int)),
        decreases to - from,
    {
        assert(s@.subrange(from as int, to as int).drop_last() =~= s@.subrange(
            from as int,
            to - 1,
        ));
        to = to - 1;
    }
    s.substring_char(from, to)
}

/// `s` with every occurrence of `pat`, taken from the left and without overlap, replaced by `with`.
pub open spec fn replaced(s: Seq<char>, pat: Seq<char>, with: Seq<char>) -> Seq<char>
    decreases s.len(),
{
    if pat.len() == 0 || s.len() < pat.len() {
        s
    } else if s.take(pat.len() as int) == pat {
        with + replaced(s.skip(pat.len() as int), pat, with)
    } else {
        seq![s[0]] + replaced(s.skip(1), pat, with)
    }
}

/// Replaces every occurrence of the non-empty `pat` in `s`.
pub fn replace_text(s: &str, pat: &str, with: &str) -> (r: String)
    requires
        pat@.len() > 0,
    ensures
        r@ == replaced(s@, pat@, with@),
{
    let v = chars_of(s);
    let p = chars_of(pat);
    let mut r = String::new();
    let mut i: usize = 0;
    assert(s@.skip(0) =~= s@);
    while i < v.len()
        invariant
            i <= v@.len(),
            v@ == s@,
            p@ == pat@,
            pat@.len() > 0,
            replaced(s@, pat@, with@) == r@ + replaced(s@.skip(i as int), pat@, with@),
        decreases v@.len() - i,
    {
        let ghost rest = s@.skip(i as int);
        if matches_at(&v, &p, i) {
            proof {
                assert(rest.take(pat@.len() as int) =~= s@.subrange(i as int, i + pat@.len()));
                assert(rest.skip(pat@.len() as int) =~= s@.skip(i + pat@.len()));
                assert(r@ + (with@ + replaced(s@.skip(i + pat@.len()), pat@, with@)) =~= (r@ + with@)
                    + replaced(s@.skip(i + pat@.len()), pat@, with@));
            }
            r.append(with);
            i = i + p.len();
        } else {
            proof {
                if rest.len() >= pat@.len() {
                    assert(rest.take(pat@.len() as int) =~= s@.subrange(i as int, i + pat@.len()));
                    assert(rest.skip(1) =~= s@.skip(i + 1));
                } else {
                    assert(rest =~= seq![rest[0]] + s@.skip(i + 1));
                }
                assert(r@ + (seq![rest[0]] + replaced(s@.skip(i + 1), pat@, with@)) =~= r@.push(
                    s@[i as int],
                ) + replaced(s@.skip(i + 1), pat@, with@));
            }
            r.push(v[i]);
            i = i + 1;
        }
    }
    assert(s@.skip(i as int) =~= Seq::<char>::empty());
    assert(r@ + Seq::<char>::empty() =~= r@);
    r
}

/// Whether `a` and `b` disagree somewhere when `b` is laid over `a` from position `d` on.
pub open spec fn clash(a: Seq<char>, b: Seq<char>, d: int) -> bool {
    exists|k: int| 0 <= k < a.len() && 0 <= k - d < b.len() && #[trigger] a[k] != b[k - d]
}

/// Whether no part of `a` can be part of `b` at the same time: wherever the two overlap, they
/// disagree.
pub open spec fn never_overlap(a: Seq<char>, b: Seq<char>) -> bool {
    forall|d: int| -b.len() < d < a.len() ==> #[trigger] clash(a, b, d)
}

proof fn replaced_start(s: Seq<char>, pat: Seq<char>, with: Seq<char>, n: int)
    requires
        pat.len() > 0,
        0 <= n <= replaced(s, pat, with).len(),
    ensures
        (n <= s.len() && replaced(s, pat, with).take(n) == s.take(n)) || exists|j: int|
            0 <= j < n && occurs_at(replaced(s, pat, with), with, j),
    decreases s.len(),
{
    let r = replaced(s, pat, with);
    if s.len() < pat.len() {
    } else if s.take(pat.len() as int) == pat {
        if n > 0 {
            assert(r.subrange(0, with.len() as int) =~= with);
            assert(occurs_at(r, with, 0));
        } else {
            assert(r.take(0) =~= s.take(0));
        }
    } else if n > 0 {
        let rest = replaced(s.skip(1), pat, with);
        replaced_start(s.skip(1), pat, with, n - 1);
        if n - 1 <= s.skip(1).len() && rest.take(n - 1) == s.skip(1).take(n - 1) {
            assert forall|i: int| 0 <= i < n implies r.take(n)[i] == s.take(n)[i] by {
                if i > 0 {
                    assert(r[i] == rest.take(n - 1)[i - 1]);
                    assert(s[i] == s.skip(1).take(n - 1)[i - 1]);
                }
            }
            assert(r.take(n) =~= s.take(n));
        } else {
            let j = choose|j: int| 0 <= j < n - 1 && occurs_at(rest, with, j);
            assert(r.subrange(j + 1, j + 1 + with.len()) =~= rest.subrange(j, j + with.len()));
            assert(occurs_at(r, with, j + 1));
        }
    } else {
        assert(r.take(0) =~= s.take(0));
    }
}

/// Replacing a text leaves none of it behind, where it cannot overlap what replaces it.
pub proof fn replaced_leaves_none(s: Seq<char>, pat: Seq<char>, with: Seq<char>)
    requires
        pat.len() > 0,
        with.len() > 0,
        never_overlap(pat, with),
    ensures
        !occurs(replaced(s, pat, with), pat),
    decreases s.len(),
{
    let r = replaced(s, pat, with);
    if s.len() < pat.len() {
    } else if s.take(pat.len() as int) == pat {
        let rest = replaced(s.skip(pat.len() as int), pat, with);
        replaced_leaves_none(s.skip(pat.len() as int), pat, with);
        assert forall|p: int| !occurs_at(r, pat, p) by {
            if occurs_at(r, pat, p) {
                if p < with.len() {
                    assert(clash(pat, with, -p));
                    let k = choose|k: int|
                        0 <= k < pat.len() && 0 <= k + p < with.len() && #[trigger] pat[k] != with[k
                            + p];
                    assert(r.subrange(p, p + pat.len())[k] == r[p + k]);
                } else {
                    assert(rest.subrange(p - with.len(), p - with.len() + pat.len()) =~= r.subrange(
                        p,
                        p + pat.len(),
                    ));
                    assert(occurs_at(rest, pat, p - with.len()));
                }
            }
        }
    } else {
        let rest = replaced(s.skip(1), pat, with);
        replaced_leaves_none(s.skip(1), pat, with);
        assert forall|p: int| !occurs_at(r, pat, p) by {
            if occurs_at(r, pat, p) {
                if p == 0 {
                    replaced_start(s, pat, with, pat.len() as int);
                    assert(r.subrange(0, pat.len() as int) =~= r.take(pat.len() as int));
                    assert(exists|j: int| 0 <= j < pat.len() && occurs_at(r, with, j));
                    let j = choose|j: int| 0 <= j < pat.len() && occurs_at(r, with, j);
                    assert(clash(pat, with, j));
                    let k = choose|k: int|
                        0 <= k < pat.len() && 0 <= k - j < with.len() && #[trigger] pat[k] != with[k
                            - j];
                    assert(r.subrange(0, pat.len() as int)[k] == r[k]);
                    assert(r.subrange(j, j + with.len())[k - j] == r[k]);
                } else {
                    assert(rest.subrange(p - 1, p - 1 + pat.len()) =~= r.subrange(
                        p,
                        p + pat.len(),
                    ));
                    assert(occurs_at(rest, pat, p - 1));
                }
            }
        }
    }
}

/// How many characters stand before the first `c`.
pub open spec fn before_char(s: Seq<char>, c: char) -> nat
    decreases s.len(),
{
    if s.len() == 0 || s[0] == c {
        0
    } else {
        1 + before_char(s.skip(1), c)
    }
}

/// The first `c` lies within the text.
pub proof fn before_char_bound(s: Seq<char>, c: char)
    ensures
        before_char(s, c) <= s.len(),
    decreases s.len(),
{
    if s.len() > 0 && s[0] != c {
        before_char_bound(s.skip(1), c);
    }
}

/// The position of the first `c` at or after `start`, or the end.
pub fn char_from(v: &Vec<char>, start: usize, c: char) -> (end: usize)
    requires
        start <= v@.len(),
    ensures
        start <= end <= v@.len(),
        before_char(v@.skip(start as int), c) == end - start,
{
    let ghost rest = v@.skip(start as int);
    let mut end: usize = start;
    assert(rest.skip(0) =~= rest);
    while end < v.len() && v[end] != c
        invariant
            start <= end <= v@.len(),
            rest == v@.skip(start as int),
            before_char(rest, c) == (end - start) + before_char(rest.skip(end - start), c),
        decreases v@.len() - end,
    {
        assert(rest.skip(end - start)[0] == v@[end as int]);
        assert(rest.skip(end - start).skip(1) =~= rest.skip(end - start + 1));
        end = end + 1;
    }
    proof {
        if end < v@.len() {
            assert(rest.skip(end - start)[0] == v@[end as int]);
        }
    }
    end
}

/// The texts of a list of strings.
pub open spec fn texts(list: Seq<String>) -> Seq<Seq<char>> {
    Seq::new(list.len(), |i: int| list[i]@)
}

/// The decimal digit with value `d`.
pub open spec fn digit(d: nat) -> char {
    ('0' as u8 + d) as char
}

/// The decimal numeral of `n`, without leading zeros.
pub open spec fn numeral(n: nat) -> Seq<char>
    decreases n,
{
    if n < 10 {
        seq![digit(n)]
    } else {
        numeral(n / 10).push(digit(n % 10))
    }
}

/// The decimal numeral of an integer, with a leading minus sign for a negative one.
pub open spec fn signed_numeral(n: int) -> Seq<char> {
    if n < 0 {
        seq!['-'] + numeral((-n) as nat)
    } else {
        numeral(n as nat)
    }
}

fn digit_char(d: u64) -> (c: char)
    requires
        d < 10,
    ensures
        c == digit(d as nat),
{
    (48u8 + (d as u8)) as char
}

/// Writes `n` in decimal.
pub fn decimal(n: u64) -> (s: String)
    ensures
        s@ == numeral(n as nat),
    decreases n,
{
    if n < 10 {
        let mut s = String::new();
        s.push(digit_char(n));
        assert(s@ =~= seq![digit(n as nat)]);
        s
    } else {
        let mut s = decimal(n / 10);
        s.push(digit_char(n % 10));
        s
    }
}

/// Writes a signed integer in decimal.
pub fn signed_decimal(n: i64) -> (s: String)
    ensures
        s@ == signed_numeral(n as int),
{
    if n >= 0 {
        decimal(n as u64)
    } else {
        let mut s = String::new();
        s.push('-');
        let magnitude: u64 = if n == i64::MIN {
            9223372036854775808u64
        } else {
            (-n) as u64
        };
        let digits = decimal(magnitude);
        s.append(digits.as_str());
        assert(s@ =~= seq!['-'] + digits@);
        s
    }
}

/// Whether `c` is an ASCII digit.
pub open spec fn is_digit(c: char) -> bool {
    '0' <= c <= '9'
}

/// Whether `s` is a non-empty run of ASCII digits.
pub open spec fn all_digits(s: Seq<char>) -> bool {
    s.len() > 0 && forall|i: int| 0 <= i < s.len() ==> is_digit(#[trigger] s[i])
}

/// The number that a run of digits denotes.
pub open spec fn digits_value(s: Seq<char>) -> nat
    decreases s.len(),
{
    if s.len() == 0 {
        0
    } else {
        digits_value(s.drop_last()) * 10 + (s.last() as u8 - '0' as u8) as nat
    }
}

/// The unsigned number that `s` writes: digits after an optional plus sign, at most `max`.
pub open spec fn parsed_unsigned(s: Seq<char>, max: nat) -> Option<nat> {
    let body = if s.len() > 0 && s[0] == '+' {
        s.skip(1)
    } else {
        s
    };
    if all_digits(body) && digits_value(body) <= max {
        Some(digits_value(body))
    } else {
        None
    }
}

/// The signed number that `s` writes, when it lies in the range of `i64`.
pub open spec fn parsed_signed(s: Seq<char>) -> Option<int> {
    if s.len() > 0 && s[0] == '-' {
        let body = s.skip(1);
        if all_digits(body) && digits_value(body) <= 9223372036854775808 {
            Some(-(digits_value(body) as int))
        } else {
            None
        }
    } else {
        match parsed_unsigned(s, 9223372036854775807) {
            Some(n) => Some(n as int),
            None => None,
        }
    }
}

proof fn digits_value_grows(s: Seq<char>, i: int)
    requires
        0 <= i <= s.len(),
        forall|k: int| 0 <= k < s.len() ==> is_digit(#[trigger] s[k]),
    ensures
        digits_value(s.take(i)) <= digits_value(s),
    decreases s.len() - i,
{
    if i < s.len() {
        digits_value_grows(s, i + 1);
        assert(s.take(i + 1).drop_last() =~= s.take(i));
    } else {
        assert(s.take(i) =~= s);
    }
}

/// Reads the digits `v[from..]`; `None` unless they are a non-empty run denoting at most `max`.
fn read_digits(v: &Vec<char>, from: usize, max: u64) -> (r: Option<u64>)
    requires
        from <= v@.len(),
    ensures
        match r {
            Some(n) => all_digits(v@.skip(from as int)) && n == digits_value(v@.skip(from as int))
                && n <= max,
            None => !(all_digits(v@.skip(from as int)) && digits_value(v@.skip(from as int)) <= max),
        },
{
    let ghost body = v@.skip(from as int);
    if from == v.len() {
        return None;
    }
    let mut total: u64 = 0;
    let mut i: usize = from;
    assert(body.take(0) =~= Seq::<char>::empty());
    while i < v.len()
        invariant
            from <= i <= v@.len(),
            body == v@.skip(from as int),
            body.len() == v@.len() - from,
            forall|k: int| 0 <= k < i - from ==> is_digit(#[trigger] body[k]),
            total == digits_value(body.take(i - from)),
            total <= max,
        decreases v@.len() - i,
    {
        let c = v[i];
        if c < '0' || c > '9' {
            assert(!is_digit(body[i - from]));
            return None;
        }
        let d: u64 = ((c as u8) - 48u8) as u64;
        proof {
            assert(body[i - from] == c);
            assert(body.take(i - from + 1).drop_last() =~= body.take(i - from));
            assert(digits_value(body.take(i - from + 1)) == total * 10 + d);
            if all_digits(body) {
                digits_value_grows(body, i - from + 1);
            }
        }
        if total > max / 10 {
            return None;
        }
        let scaled: u64 = total * 10;
        if d > max - scaled {
            return None;
        }
        total = scaled + d;
        i = i + 1;
    }
    assert(body.take(body.len() as int) =~= body);
    Some(total)
}

/// Reads an unsigned decimal number of at most `max`.
pub fn parse_unsigned(s: &str, max: u64) -> (r: Option<u64>)
    ensures
        match r {
            Some(n) => parsed_unsigned(s@, max as nat) == Some(n as nat),
            None => parsed_unsigned(s@, max as nat) is None,
        },
{
    let v = chars_of(s);
    assert(s@.skip(0) =~= s@);
    if v.len() > 0 && v[0] == '+' {
        read_digits(&v, 1, max)
    } else {
        read_digits(&v, 0, max)
    }
}

/// Reads a signed decimal number.
pub fn parse_signed(s: &str) -> (r: Option<i64>)
    ensures
        match r {
            Some(n) => parsed_signed(s@) == Some(n as int),
            None => parsed_signed(s@) is None,
        },
{
    let v = chars_of(s);
    if v.len() > 0 && v[0] == '-' {
        match read_digits(&v, 1, 9223372036854775808u64) {
            Some(n) => if n == 9223372036854775808u64 {
                Some(i64::MIN)
            } else {
                Some(-(n as i64))
            },
            None => None,
        }
    } else {
        match parse_unsigned(s, 9223372036854775807u64) {
            Some(n) => Some(n as i64),
            None => None,
        }
    }
}

/// Whether `a` comes strictly before `b` in the order of the characters' code points.
pub open spec fn precedes(a: Seq<char>, b: Seq<char>) -> bool
    decreases a.len(),
{
    if b.len() == 0 {
        false
    } else if a.len() == 0 {
        true
    } else if a[0] == b[0] {
        precedes(a.skip(1), b.skip(1))
    } else {
        a[0] < b[0]
    }
}

/// `precedes` is irreflexive, asymmetric and total on distinct texts.
pub proof fn precedes_orders(a: Seq<char>, b: Seq<char>)
    ensures
        !(precedes(a, b) && precedes(b, a)),
        a == b ==> !precedes(a, b),
        a != b ==> precedes(a, b) || precedes(b, a),
    decreases a.len(),
{
    if a.len() > 0 && b.len() > 0 && a[0] == b[0] {
        precedes_orders(a.skip(1), b.skip(1));
        if a.skip(1) == b.skip(1) {
            assert(a =~= seq![a[0]] + a.skip(1));
            assert(b =~= seq![b[0]] + b.skip(1));
        }
    } else if a.len() == 0 && b.len() == 0 {
        assert(a =~= b);
    }
}

/// `precedes` is transitive.
pub proof fn precedes_transitive(a: Seq<char>, b: Seq<char>, c: Seq<char>)
    requires
        precedes(a, b),
        precedes(b, c),
    ensures
        precedes(a, c),
    decreases a.len(),
{
    if a.len() > 0 && b.len() > 0 && c.len() > 0 && a[0] == b[0] && b[0] == c[0] {
        precedes_transitive(a.skip(1), b.skip(1), c.skip(1));
    }
}

/// Tests `precedes`.
pub fn comes_before(a: &str, b: &str) -> (r: bool)
    ensures
        r == precedes(a@, b@),
{
    let x = chars_of(a);
    let y = chars_of(b);
    let mut i: usize = 0;
    assert(a@.skip(0) =~= a@);
    assert(b@.skip(0) =~= b@);
    while i < x.len() && i < y.len() && x[i] == y[i]
        invariant
            i <= x@.len(),
            i <= y@.len(),
            x@ == a@,
            y@ == b@,
            precedes(a@, b@) == precedes(a@.skip(i as int), b@.skip(i as int)),
        decreases x@.len() - i,
    {
        assert(a@.skip(i as int).skip(1) =~= a@.skip(i + 1));
        assert(b@.skip(i as int).skip(1) =~= b@.skip(i + 1));
        i = i + 1;
    }
    if i == y.len() {
        false
    } else if i == x.len() {
        true
    } else {
        x[i] < y[i]
    }
}

/// Joins two texts.
pub fn concat(a: &str, b: &str) -> (s: String)
    ensures
        s@ == a@ + b@,
{
    let mut s = a.to_owned();
    s.append(b);
    s
}

/// Joins three texts.
pub fn concat3(a: &str, b: &str, c: &str) -> (s: String)
    ensures
        s@ == a@ + b@ + c@,
{
    let mut s = a.to_owned();
    s.append(b);
    s.append(c);
    s
}

/// The texts one after the other with a text between each two.
pub open spec fn listed(list: Seq<Seq<char>>, between: Seq<char>) -> Seq<char>
    decreases list.len(),
{
    if list.len() == 0 {
        Seq::empty()
    } else if list.len() == 1 {
        list[0]
    } else {
        listed(list.drop_last(), between) + between + list.last()
    }
}

/// Writes the texts one after the other with a text between each two.
pub fn list_texts(list: &Vec<String>, between: &str) -> (s: String)
    ensures
        s@ == listed(texts(list@), between@),
{
    let mut s = String::new();
    let mut i: usize = 0;
    while i < list.len()
        invariant
            i <= list@.len(),
            s@ == listed(texts(list@).take(i as int), between@),
        decreases list@.len() - i,
    {
        proof {
            assert(texts(list@).take(i as int + 1).drop_last() =~= texts(list@).take(i as int));
            assert(texts(list@).take(i as int + 1)[i as int] == list@[i as int]@);
        }
        if i == 0 {
            s = list[i].clone();
        } else {
            s = concat3(s.as_str(), between, list[i].as_str());
        }
        i = i + 1;
    }
    assert(texts(list@).take(i as int) =~= texts(list@));
    s
}

} // verus!
