//! Paths with slashes between their parts, as texts.

use crate::text::{ascii_lowercase, chars_of, comes_before, concat, same_text, text_of};
use crate::urls::split_slashes;
use vstd::prelude::*;

verus! {

/// Parts of a path without the dots in them: a single dot stands for nothing, and two dots take
/// away the part before them, if there is one.
pub open spec fn folded(parts: Seq<Seq<char>>) -> Seq<Seq<char>>
    decreases parts.len(),
{
    if parts.len() == 0 {
        Seq::empty()
    } else {
        let before = folded(parts.drop_last());
        if parts.last() == "."@ {
            before
        } else if parts.last() == ".."@ {
            if before.len() > 0 {
                before.drop_last()
            } else {
                before
            }
        } else {
            before.push(parts.last())
        }
    }
}

/// Whether a path starts at the root.
pub open spec fn rooted(path: Seq<char>) -> bool {
    path.len() > 0 && path[0] == '/'
}

/// The components of a path: the root, if the path starts there, then its parts without dots.
pub open spec fn components(path: Seq<char>) -> Seq<Seq<char>> {
    if rooted(path) {
        seq!["/"@] + folded(crate::urls::slash_parts(path))
    } else {
        folded(crate::urls::slash_parts(path))
    }
}

/// The components of a path.
pub fn normalized_absolute(path: &str) -> (r: Vec<String>)
    ensures
        crate::text::texts(r@) == components(path@),
{
    let parts = split_slashes(path);
    let ghost view = crate::text::texts(parts@);
    let mut names: Vec<String> = Vec::new();
    let mut i: usize = 0;
    assert(view.take(0) =~= Seq::<Seq<char>>::empty());
    assert(crate::text::texts(names@) =~= Seq::<Seq<char>>::empty());
    while i < parts.len()
        invariant
            i <= parts@.len(),
            view == crate::text::texts(parts@),
            crate::text::texts(names@) == folded(view.take(i as int)),
        decreases parts@.len() - i,
    {
        assert(view.take(i + 1).drop_last() =~= view.take(i as int));
        assert(view.take(i + 1).last() == parts@[i as int]@);
        let ghost before = crate::text::texts(names@);
        assert(before.len() == names@.len());
        if same_text(parts[i].as_str(), ".") {
        } else if same_text(parts[i].as_str(), "..") {
            if names.len() > 0 {
                names.pop();
                assert(crate::text::texts(names@) =~= before.drop_last());
            }
        } else {
            names.push(parts[i].clone());
            assert(crate::text::texts(names@) =~= before.push(parts@[i as int]@));
        }
        i = i + 1;
    }
    assert(view.take(view.len() as int) =~= view);
    let chars = chars_of(path);
    if chars.len() > 0 && chars[0] == '/' {
        let ghost before = crate::text::texts(names@);
        names.insert(0, "/".to_owned());
        assert(crate::text::texts(names@) =~= seq!["/"@] + before);
    }
    names
}

/// Whether one of two paths lies in the other.
pub open spec fn overlap(left: Seq<char>, right: Seq<char>) -> bool {
    components(left).is_prefix_of(components(right)) || components(right).is_prefix_of(
        components(left),
    )
}

/// Two paths overlap whichever is named first, and each path overlaps itself.
pub proof fn overlap_is_symmetric(left: Seq<char>, right: Seq<char>)
    ensures
        overlap(left, right) == overlap(right, left),
        overlap(left, left),
{
}

/// Whether the components of one path stand at the start of those of another.
pub fn starts_with(path: &Vec<String>, start: &Vec<String>) -> (b: bool)
    ensures
        b == crate::text::texts(start@).is_prefix_of(crate::text::texts(path@)),
{
    if start.len() > path.len() {
        return false;
    }
    let ghost s = crate::text::texts(start@);
    let ghost p = crate::text::texts(path@);
    let mut i: usize = 0;
    while i < start.len()
        invariant
            i <= start@.len() <= path@.len(),
            s == crate::text::texts(start@),
            p == crate::text::texts(path@),
            forall|j: int| 0 <= j < i ==> #[trigger] s[j] == p[j],
        decreases start@.len() - i,
    {
        assert(s[i as int] == start@[i as int]@ && p[i as int] == path@[i as int]@);
        if !same_text(start[i].as_str(), path[i].as_str()) {
            proof {
                if s.is_prefix_of(p) {
                    assert(s[i as int] == p.subrange(0, s.len() as int)[i as int]);
                }
            }
            return false;
        }
        i = i + 1;
    }
    assert(p.subrange(0, s.len() as int) =~= s);
    true
}

/// Whether one of two paths lies in the other.
pub fn paths_overlap(left: &str, right: &str) -> (b: bool)
    ensures
        b == overlap(left@, right@),
{
    let l = normalized_absolute(left);
    let r = normalized_absolute(right);
    starts_with(&r, &l) || starts_with(&l, &r)
}

/// Whether a path lies in one of some directories.
pub open spec fn within_any(path: Seq<char>, roots: Seq<Seq<char>>) -> bool {
    exists|i: int|
        0 <= i < roots.len() && components(#[trigger] roots[i]).is_prefix_of(components(path))
}

/// Whether a path lies in one of some directories. The paths are those that the file system
/// resolves them to, where it does.
pub fn path_is_within_any(path: &str, roots: &Vec<String>) -> (b: bool)
    ensures
        b == within_any(path@, crate::text::texts(roots@)),
{
    let p = normalized_absolute(path);
    let ghost view = crate::text::texts(roots@);
    let mut i: usize = 0;
    while i < roots.len()
        invariant
            i <= roots@.len(),
            view == crate::text::texts(roots@),
            crate::text::texts(p@) == components(path@),
            forall|j: int|
                0 <= j < i ==> !components(#[trigger] view[j]).is_prefix_of(components(path@)),
        decreases roots@.len() - i,
    {
        let root = normalized_absolute(roots[i].as_str());
        assert(view[i as int] == roots@[i as int]@);
        if starts_with(&p, &root) {
            return true;
        }
        i = i + 1;
    }
    false
}

/// The last part of a path that is not a single dot.
pub open spec fn last_part(parts: Seq<Seq<char>>) -> Option<Seq<char>>
    decreases parts.len(),
{
    if parts.len() == 0 {
        None
    } else if parts.last() == "."@ {
        last_part(parts.drop_last())
    } else {
        Some(parts.last())
    }
}

/// The name of the file that a path leads to.
pub open spec fn name_of(path: Seq<char>) -> Option<Seq<char>> {
    match last_part(crate::urls::slash_parts(path)) {
        Some(name) => if name == ".."@ {
            None
        } else {
            Some(name)
        },
        None => None,
    }
}

/// The name of the file that a path leads to.
pub fn file_name(path: &str) -> (r: Option<String>)
    ensures
        crate::domain::opt_view(r) == name_of(path@),
{
    let parts = split_slashes(path);
    let ghost view = crate::text::texts(parts@);
    let mut n: usize = parts.len();
    assert(view.take(n as int) =~= view);
    while n > 0 && same_text(parts[n - 1].as_str(), ".")
        invariant
            n <= parts@.len(),
            view == crate::text::texts(parts@),
            view == crate::urls::slash_parts(path@),
            last_part(view) == last_part(view.take(n as int)),
        decreases n,
    {
        assert(view.take(n as int).last() == parts@[n - 1]@);
        assert(view.take(n as int).drop_last() =~= view.take(n - 1));
        n = n - 1;
    }
    if n == 0 {
        return None;
    }
    assert(view.take(n as int).last() == parts@[n - 1]@);
    if same_text(parts[n - 1].as_str(), "..") {
        None
    } else {
        Some(parts[n - 1].clone())
    }
}

/// The position of the last dot.
pub open spec fn last_dot(name: Seq<char>) -> Option<nat>
    decreases name.len(),
{
    if name.len() == 0 {
        None
    } else if name.last() == '.' {
        Some((name.len() - 1) as nat)
    } else {
        last_dot(name.drop_last())
    }
}

/// What stands behind the last dot of a file's name, unless the name starts with that dot.
pub open spec fn extension_of(path: Seq<char>) -> Option<Seq<char>> {
    match name_of(path) {
        Some(name) => match last_dot(name) {
            Some(at) => if at == 0 {
                None
            } else {
                Some(name.skip(at as int + 1))
            },
            None => None,
        },
        None => None,
    }
}

/// What stands behind the last dot of a file's name, unless the name starts with that dot.
pub fn extension(path: &str) -> (r: Option<String>)
    ensures
        crate::domain::opt_view(r) == extension_of(path@),
{
    let name = match file_name(path) {
        Some(name) => name,
        None => {
            return None;
        },
    };
    let chars = chars_of(name.as_str());
    let mut n: usize = chars.len();
    assert(name@.take(n as int) =~= name@);
    while n > 0 && chars[n - 1] != '.'
        invariant
            n <= chars@.len(),
            chars@ == name@,
            last_dot(name@) == last_dot(name@.take(n as int)),
        decreases n,
    {
        assert(name@.take(n as int).drop_last() =~= name@.take(n - 1));
        n = n - 1;
    }
    if n <= 1 {
        return None;
    }
    let tail = text_of(&chars, n, chars.len());
    assert(tail@ =~= name@.skip(n as int));
    Some(tail)
}

/// The extension of a file's name in small letters.
pub fn lower_extension(path: &str) -> (r: Option<String>)
    ensures
        crate::domain::opt_view(r) == match extension_of(path@) {
            Some(e) => Some(crate::text::lower_text(e)),
            None => None,
        },
{
    match extension(path) {
        Some(e) => Some(ascii_lowercase(e.as_str())),
        None => None,
    }
}

/// Texts with slashes between them.
pub open spec fn slashed(list: Seq<Seq<char>>) -> Seq<char>
    decreases list.len(),
{
    if list.len() == 0 {
        Seq::empty()
    } else if list.len() == 1 {
        list[0]
    } else {
        slashed(list.drop_last()) + "/"@ + list.last()
    }
}

/// The first `end` of some texts with slashes between them.
pub fn join_slashed(list: &Vec<String>, end: usize) -> (s: String)
    requires
        end <= list@.len(),
    ensures
        s@ == slashed(crate::text::texts(list@).take(end as int)),
{
    let ghost view = crate::text::texts(list@);
    let mut s = String::new();
    let mut i: usize = 0;
    while i < end
        invariant
            i <= end <= list@.len(),
            view == crate::text::texts(list@),
            s@ == slashed(view.take(i as int)),
        decreases end - i,
    {
        assert(view.take(i + 1).drop_last() =~= view.take(i as int));
        assert(view.take(i + 1).last() == list@[i as int]@);
        if i > 0 {
            s.append("/");
        }
        s.append(list[i].as_str());
        proof {
            if i == 0 {
                assert(s@ =~= list@[0]@);
            }
        }
        i = i + 1;
    }
    s
}


/// The parts of a path without the single dots at its end.
pub open spec fn without_end_dots(parts: Seq<Seq<char>>) -> Seq<Seq<char>>
    decreases parts.len(),
{
    if parts.len() > 0 && parts.last() == "."@ {
        without_end_dots(parts.drop_last())
    } else {
        parts
    }
}

/// The parts of the directory in which a path's file lies: all but the file's name, where the path
/// has one.
pub open spec fn directory_parts(path: Seq<char>) -> Seq<Seq<char>> {
    let parts = without_end_dots(crate::urls::slash_parts(path));
    if parts.len() > 0 && parts.last() != ".."@ {
        parts.drop_last()
    } else {
        parts
    }
}

/// A path made of parts.
pub open spec fn assembled(root: bool, parts: Seq<Seq<char>>) -> Seq<char> {
    if root {
        "/"@ + slashed(parts)
    } else {
        slashed(parts)
    }
}

/// The path with another file name.
pub open spec fn renamed(path: Seq<char>, name: Seq<char>) -> Seq<char> {
    assembled(rooted(path), directory_parts(path).push(name))
}

/// The path with another file name.
pub fn with_file_name(path: &str, name: &str) -> (r: String)
    ensures
        r@ == renamed(path@, name@),
{
    let mut parts = split_slashes(path);
    let ghost whole = crate::text::texts(parts@);
    let mut n: usize = parts.len();
    assert(whole.take(n as int) =~= whole);
    while n > 0 && same_text(parts[n - 1].as_str(), ".")
        invariant
            n <= parts@.len(),
            whole == crate::text::texts(parts@),
            without_end_dots(whole) == without_end_dots(whole.take(n as int)),
        decreases n,
    {
        assert(whole.take(n as int).last() == parts@[n - 1]@);
        assert(whole.take(n as int).drop_last() =~= whole.take(n - 1));
        n = n - 1;
    }
    proof {
        if n > 0 {
            assert(whole.take(n as int).last() == parts@[n - 1]@);
        }
    }
    let ghost kept = whole.take(n as int);
    if n > 0 && !same_text(parts[n - 1].as_str(), "..") {
        n = n - 1;
        assert(kept.drop_last() =~= whole.take(n as int));
    }
    parts.truncate(n);
    parts.push(name.to_owned());
    assert(crate::text::texts(parts@) =~= directory_parts(path@).push(name@));
    let joined = join_slashed(&parts, parts.len());
    assert(crate::text::texts(parts@).take(parts@.len() as int) =~= crate::text::texts(parts@));
    let chars = chars_of(path);
    if chars.len() > 0 && chars[0] == '/' {
        concat("/", joined.as_str())
    } else {
        joined
    }
}

/// A path with another one behind it; one that starts at the root stands alone.
pub open spec fn joined(base: Seq<char>, rest: Seq<char>) -> Seq<char> {
    if rooted(rest) {
        rest
    } else if base.len() == 0 || base.last() == '/' {
        base + rest
    } else {
        base + "/"@ + rest
    }
}

/// A path with another one behind it.
pub fn join_path(base: &str, rest: &str) -> (r: String)
    ensures
        r@ == joined(base@, rest@),
{
    let tail = chars_of(rest);
    if tail.len() > 0 && tail[0] == '/' {
        return rest.to_owned();
    }
    let head = chars_of(base);
    if head.len() == 0 || head[head.len() - 1] == '/' {
        concat(base, rest)
    } else {
        let start = concat(base, "/");
        concat(start.as_str(), rest)
    }
}

/// The parts of the directory above a path. A path without parts has none.
pub open spec fn parent_parts(path: Seq<char>) -> Option<Seq<Seq<char>>> {
    if crate::urls::slash_parts(path).len() == 0 {
        None
    } else {
        let parts = without_end_dots(crate::urls::slash_parts(path));
        if parts.len() == 0 {
            Some(parts)
        } else {
            Some(parts.drop_last())
        }
    }
}

/// Whether a text can stand between two slashes.
pub open spec fn plain_part(part: Seq<char>) -> bool {
    part.len() > 0 && !part.contains('/')
}

proof fn before_slash(s: Seq<char>)
    ensures
        crate::text::before_char(s, '/') <= s.len(),
        forall|i: int| 0 <= i < crate::text::before_char(s, '/') ==> #[trigger] s[i] != '/',
        crate::text::before_char(s, '/') < s.len() ==> s[crate::text::before_char(s, '/') as int]
            == '/',
    decreases s.len(),
{
    if s.len() > 0 && s[0] != '/' {
        before_slash(s.skip(1));
        assert forall|i: int| 0 <= i < crate::text::before_char(s, '/') implies #[trigger] s[i]
            != '/' by {
            if i > 0 {
                assert(s.skip(1)[i - 1] == s[i]);
            }
        }
    }
}

proof fn before_slash_is(s: Seq<char>, n: int)
    requires
        0 <= n <= s.len(),
        forall|i: int| 0 <= i < n ==> #[trigger] s[i] != '/',
        n < s.len() ==> s[n] == '/',
    ensures
        crate::text::before_char(s, '/') == n,
{
    before_slash(s);
    let m = crate::text::before_char(s, '/') as int;
    if m < n {
        assert(s[m] != '/');
    }
    if n < m {
        assert(s[n] != '/');
    }
}

proof fn slash_parts_are_plain(s: Seq<char>)
    ensures
        forall|i: int|
            0 <= i < crate::urls::slash_parts(s).len() ==> plain_part(
                #[trigger] crate::urls::slash_parts(s)[i],
            ),
    decreases s.len(),
{
    if s.len() > 0 {
        if s[0] == '/' {
            slash_parts_are_plain(s.skip(1));
            assert(crate::urls::slash_parts(s) == crate::urls::slash_parts(s.skip(1)));
        } else {
            before_slash(s);
            let n = crate::text::before_char(s, '/') as int;
            let rest = crate::urls::slash_parts(s.skip(n));
            slash_parts_are_plain(s.skip(n));
            assert(crate::urls::slash_parts(s) == seq![s.take(n)] + rest);
            assert forall|i: int| 0 <= i < crate::urls::slash_parts(s).len() implies plain_part(
                #[trigger] crate::urls::slash_parts(s)[i],
            ) by {
                if i > 0 {
                    assert(crate::urls::slash_parts(s)[i] == rest[i - 1]);
                } else {
                    assert forall|k: int| 0 <= k < n implies s.take(n)[k] != '/' by {
                        assert(s.take(n)[k] == s[k]);
                    }
                }
            }
        }
    }
}

proof fn slash_parts_of_plain(part: Seq<char>)
    requires
        plain_part(part),
    ensures
        crate::urls::slash_parts(part) == seq![part],
{
    assert forall|i: int| 0 <= i < part.len() implies #[trigger] part[i] != '/' by {
        assert(part.contains(part[i]));
    }
    before_slash_is(part, part.len() as int);
    assert(part[0] != '/');
    assert(part.take(part.len() as int) =~= part);
    assert(part.skip(part.len() as int) =~= Seq::<char>::empty());
    assert(crate::urls::slash_parts(part.skip(part.len() as int)) =~= Seq::<Seq<char>>::empty());
    assert(seq![part] + Seq::<Seq<char>>::empty() =~= seq![part]);
}

proof fn slash_parts_join(a: Seq<char>, b: Seq<char>)
    ensures
        crate::urls::slash_parts(a + seq!['/'] + b) == crate::urls::slash_parts(a)
            + crate::urls::slash_parts(b),
    decreases a.len(),
{
    let s = a + seq!['/'] + b;
    if a.len() == 0 {
        assert(s.skip(1) =~= b);
        assert(crate::urls::slash_parts(a) + crate::urls::slash_parts(b)
            =~= crate::urls::slash_parts(b));
    } else if a[0] == '/' {
        slash_parts_join(a.skip(1), b);
        assert(s.skip(1) =~= a.skip(1) + seq!['/'] + b);
    } else {
        before_slash(a);
        let n = crate::text::before_char(a, '/') as int;
        assert forall|i: int| 0 <= i < n implies #[trigger] s[i] != '/' by {
            assert(s[i] == a[i]);
        }
        before_slash_is(s, n);
        slash_parts_join(a.skip(n), b);
        assert(s.skip(n) =~= a.skip(n) + seq!['/'] + b);
        assert(s.take(n) =~= a.take(n));
        assert(seq![a.take(n)] + (crate::urls::slash_parts(a.skip(n)) + crate::urls::slash_parts(b))
            =~= (seq![a.take(n)] + crate::urls::slash_parts(a.skip(n)))
            + crate::urls::slash_parts(b));
    }
}

proof fn slash_parts_of_slashed(parts: Seq<Seq<char>>)
    requires
        forall|i: int| 0 <= i < parts.len() ==> plain_part(#[trigger] parts[i]),
    ensures
        crate::urls::slash_parts(slashed(parts)) == parts,
        parts.len() > 0 ==> slashed(parts).len() > 0 && slashed(parts)[0] == parts[0][0],
    decreases parts.len(),
{
    if parts.len() == 0 {
        assert(crate::urls::slash_parts(slashed(parts)) =~= parts);
    } else if parts.len() == 1 {
        slash_parts_of_plain(parts[0]);
        assert(seq![parts[0]] =~= parts);
    } else {
        let head = parts.drop_last();
        assert forall|i: int| 0 <= i < head.len() implies plain_part(#[trigger] head[i]) by {
            assert(head[i] == parts[i]);
        }
        slash_parts_of_slashed(head);
        slash_parts_of_plain(parts.last());
        slash_parts_join(slashed(head), parts.last());
        reveal_strlit("/");
        assert("/"@ =~= seq!['/']);
        assert(head + seq![parts.last()] =~= parts);
    }
}

proof fn end_dots_cut(parts: Seq<Seq<char>>)
    ensures
        without_end_dots(parts).len() <= parts.len(),
        without_end_dots(parts) == parts.take(without_end_dots(parts).len() as int),
        last_part(parts) matches Some(name) ==> without_end_dots(parts).len() > 0
            && without_end_dots(parts).last() == name,
    decreases parts.len(),
{
    if parts.len() > 0 && parts.last() == "."@ {
        end_dots_cut(parts.drop_last());
        let n = without_end_dots(parts).len() as int;
        assert(parts.drop_last().take(n) =~= parts.take(n));
    } else {
        assert(parts.take(parts.len() as int) =~= parts);
    }
}

/// A file's name holds no slash.
pub proof fn names_are_plain(path: Seq<char>)
    ensures
        name_of(path) matches Some(name) ==> plain_part(name),
{
    let own = crate::urls::slash_parts(path);
    slash_parts_are_plain(path);
    end_dots_cut(own);
    if name_of(path) is Some {
        let n = without_end_dots(own).len();
        assert(own[n - 1] == without_end_dots(own)[n - 1]);
    }
}

/// The path with another file name lies in the same directory and has that name, where the name
/// holds no slash and means no directory.
pub proof fn renamed_is_a_sibling(path: Seq<char>, name: Seq<char>)
    requires
        name_of(path) is Some,
        plain_part(name),
        name != "."@,
        name != ".."@,
    ensures
        name_of(renamed(path, name)) == Some(name),
        directory_parts(renamed(path, name)) == directory_parts(path),
        rooted(renamed(path, name)) == rooted(path),
        parent_parts(renamed(path, name)) == parent_parts(path),
{
    let own = crate::urls::slash_parts(path);
    slash_parts_are_plain(path);
    end_dots_cut(own);
    let directory = directory_parts(path);
    let parts = directory.push(name);
    assert forall|i: int| 0 <= i < parts.len() implies plain_part(#[trigger] parts[i]) by {
        if i < directory.len() {
            assert(parts[i] == own[i]);
        }
    }
    slash_parts_of_slashed(parts);
    let result = renamed(path, name);
    reveal_strlit("/");
    assert("/"@ =~= seq!['/']);
    if rooted(path) {
        assert(Seq::<char>::empty() + seq!['/'] + slashed(parts) =~= "/"@ + slashed(parts));
        slash_parts_join(Seq::empty(), slashed(parts));
        assert(Seq::<Seq<char>>::empty() + parts =~= parts);
    } else {
        assert(parts[0].contains(parts[0][0]));
    }
    assert(crate::urls::slash_parts(result) == parts);
    assert(parts.drop_last() =~= directory);
}

/// The path beside another path that has this name.
pub open spec fn sibling_of(path: Seq<char>, name: Seq<char>) -> Option<Seq<char>> {
    match parent_parts(path) {
        Some(parts) => Some(assembled(rooted(path), parts.push(name))),
        None => None,
    }
}

/// The path beside another path that has this name.
pub fn sibling(path: &str, name: &str) -> (r: Option<String>)
    ensures
        crate::domain::opt_view(r) == sibling_of(path@, name@),
{
    let mut parts = split_slashes(path);
    let ghost whole = crate::text::texts(parts@);
    if parts.len() == 0 {
        return None;
    }
    let mut n: usize = parts.len();
    assert(whole.take(n as int) =~= whole);
    while n > 0 && same_text(parts[n - 1].as_str(), ".")
        invariant
            n <= parts@.len(),
            whole == crate::text::texts(parts@),
            without_end_dots(whole) == without_end_dots(whole.take(n as int)),
        decreases n,
    {
        assert(whole.take(n as int).last() == parts@[n - 1]@);
        assert(whole.take(n as int).drop_last() =~= whole.take(n - 1));
        n = n - 1;
    }
    proof {
        if n > 0 {
            assert(whole.take(n as int).last() == parts@[n - 1]@);
        }
    }
    let ghost kept = whole.take(n as int);
    if n > 0 {
        n = n - 1;
        assert(kept.drop_last() =~= whole.take(n as int));
    }
    parts.truncate(n);
    parts.push(name.to_owned());
    assert(crate::text::texts(parts@) =~= parent_parts(path@)->0.push(name@));
    let joined = join_slashed(&parts, parts.len());
    assert(crate::text::texts(parts@).take(parts@.len() as int) =~= crate::text::texts(parts@));
    let chars = chars_of(path);
    if chars.len() > 0 && chars[0] == '/' {
        Some(concat("/", joined.as_str()))
    } else {
        Some(joined)
    }
}

/// Where a part stands in the order of parts: the root first, then dots, then names.
pub open spec fn part_rank(part: Seq<char>) -> nat {
    if part == "/"@ {
        0
    } else if part == "."@ {
        1
    } else if part == ".."@ {
        2
    } else {
        3
    }
}

/// Whether a part comes before another one.
pub open spec fn part_before(a: Seq<char>, b: Seq<char>) -> bool {
    part_rank(a) < part_rank(b) || (part_rank(a) == 3 && part_rank(b) == 3
        && crate::text::precedes(a, b))
}

/// Whether parts come before others: at the first difference, or because they end.
pub open spec fn parts_before(a: Seq<Seq<char>>, b: Seq<Seq<char>>) -> bool
    decreases a.len(),
{
    if b.len() == 0 {
        false
    } else if a.len() == 0 {
        true
    } else if a[0] == b[0] {
        parts_before(a.skip(1), b.skip(1))
    } else {
        part_before(a[0], b[0])
    }
}

/// Parts without the single dots behind the first of them.
pub open spec fn without_inner_dots(parts: Seq<Seq<char>>) -> Seq<Seq<char>>
    decreases parts.len(),
{
    if parts.len() <= 1 {
        parts
    } else if parts.last() == "."@ {
        without_inner_dots(parts.drop_last())
    } else {
        without_inner_dots(parts.drop_last()).push(parts.last())
    }
}

/// The parts by which a path is ordered. A single dot counts only at the start of a path that does
/// not begin at the root.
pub open spec fn order_key(path: Seq<char>) -> Seq<Seq<char>> {
    if rooted(path) {
        without_inner_dots(seq!["/"@] + crate::urls::slash_parts(path))
    } else {
        without_inner_dots(crate::urls::slash_parts(path))
    }
}

/// Whether a path comes before another one.
pub open spec fn path_before(a: Seq<char>, b: Seq<char>) -> bool {
    parts_before(order_key(a), order_key(b))
}

fn key_of(path: &str) -> (key: Vec<String>)
    ensures
        crate::text::texts(key@) == order_key(path@),
{
    let mut parts = split_slashes(path);
    let ghost inner = crate::text::texts(parts@);
    let chars = chars_of(path);
    if chars.len() > 0 && chars[0] == '/' {
        parts.insert(0, "/".to_owned());
        assert(crate::text::texts(parts@) =~= seq!["/"@] + inner);
    }
    let ghost whole = crate::text::texts(parts@);
    let mut key: Vec<String> = Vec::new();
    let mut i: usize = 0;
    assert(whole.take(0) =~= Seq::<Seq<char>>::empty());
    assert(crate::text::texts(key@) =~= Seq::<Seq<char>>::empty());
    while i < parts.len()
        invariant
            i <= parts@.len(),
            whole == crate::text::texts(parts@),
            crate::text::texts(key@) == without_inner_dots(whole.take(i as int)),
        decreases parts@.len() - i,
    {
        let ghost before = crate::text::texts(key@);
        assert(whole.take(i + 1).drop_last() =~= whole.take(i as int));
        assert(whole.take(i + 1).last() == parts@[i as int]@);
        if i == 0 || !same_text(parts[i].as_str(), ".") {
            key.push(parts[i].clone());
            assert(crate::text::texts(key@) =~= before.push(parts@[i as int]@));
            proof {
                if i == 0 {
                    assert(whole.take(1) =~= crate::text::texts(key@));
                }
            }
        }
        i = i + 1;
    }
    assert(whole.take(whole.len() as int) =~= whole);
    key
}

fn rank_of(part: &str) -> (n: u8)
    ensures
        n == part_rank(part@),
{
    if same_text(part, "/") {
        0
    } else if same_text(part, ".") {
        1
    } else if same_text(part, "..") {
        2
    } else {
        3
    }
}

/// Whether a path comes before another one.
pub fn path_comes_before(a: &str, b: &str) -> (r: bool)
    ensures
        r == path_before(a@, b@),
{
    let x = key_of(a);
    let y = key_of(b);
    let ghost xs = crate::text::texts(x@);
    let ghost ys = crate::text::texts(y@);
    let mut i: usize = 0;
    assert(xs.skip(0) =~= xs && ys.skip(0) =~= ys);
    while i < x.len() && i < y.len()
        invariant
            i <= x@.len(),
            i <= y@.len(),
            xs == crate::text::texts(x@),
            ys == crate::text::texts(y@),
            xs == order_key(a@),
            ys == order_key(b@),
            path_before(a@, b@) == parts_before(xs.skip(i as int), ys.skip(i as int)),
        decreases x@.len() - i,
    {
        assert(xs.skip(i as int)[0] == x@[i as int]@);
        assert(ys.skip(i as int)[0] == y@[i as int]@);
        if !same_text(x[i].as_str(), y[i].as_str()) {
            let m: u8 = rank_of(x[i].as_str());
            let n: u8 = rank_of(y[i].as_str());
            return m < n || (m == 3 && n == 3 && comes_before(x[i].as_str(), y[i].as_str()));
        }
        assert(xs.skip(i as int).skip(1) =~= xs.skip(i + 1));
        assert(ys.skip(i as int).skip(1) =~= ys.skip(i + 1));
        i = i + 1;
    }
    i >= x.len() && i < y.len()
}

/// A path put into its place in a list that is in order.
pub open spec fn path_placed(list: Seq<Seq<char>>, path: Seq<char>) -> Seq<Seq<char>>
    decreases list.len(),
{
    if list.len() == 0 || path_before(path, list[0]) {
        seq![path] + list
    } else {
        seq![list[0]] + path_placed(list.skip(1), path)
    }
}

/// Paths in order.
pub open spec fn paths_in_order(list: Seq<Seq<char>>) -> Seq<Seq<char>>
    decreases list.len(),
{
    if list.len() == 0 {
        list
    } else {
        path_placed(paths_in_order(list.drop_last()), list.last())
    }
}

fn place_path(list: &mut Vec<String>, path: String)
    ensures
        crate::text::texts(final(list)@) == path_placed(crate::text::texts(old(list)@), path@),
{
    let ghost start = crate::text::texts(list@);
    let mut i: usize = 0;
    assert(start.skip(0) =~= start);
    assert(start.take(0) =~= Seq::<Seq<char>>::empty());
    while i < list.len() && !path_comes_before(path.as_str(), list[i].as_str())
        invariant
            i <= list@.len(),
            list@ == old(list)@,
            start == crate::text::texts(list@),
            path_placed(start, path@) == start.take(i as int) + path_placed(
                start.skip(i as int),
                path@,
            ),
        decreases list@.len() - i,
    {
        proof {
            let rest = start.skip(i as int);
            assert(rest[0] == list@[i as int]@);
            assert(rest.skip(1) =~= start.skip(i + 1));
            assert(start.take(i as int) + (seq![rest[0]] + path_placed(start.skip(i + 1), path@))
                =~= start.take(i + 1) + path_placed(start.skip(i + 1), path@));
        }
        i = i + 1;
    }
    proof {
        let rest = start.skip(i as int);
        if i < list@.len() {
            assert(rest[0] == list@[i as int]@);
        }
        assert(path_placed(rest, path@) == seq![path@] + rest);
    }
    list.insert(i, path);
    assert(crate::text::texts(list@) =~= start.take(i as int) + (seq![path@] + start.skip(i as int)));
}

/// Puts paths in order.
pub fn sort_paths(list: &Vec<String>) -> (sorted: Vec<String>)
    ensures
        crate::text::texts(sorted@) == paths_in_order(crate::text::texts(list@)),
{
    let ghost view = crate::text::texts(list@);
    let mut sorted: Vec<String> = Vec::new();
    let mut i: usize = 0;
    assert(view.take(0) =~= Seq::<Seq<char>>::empty());
    assert(crate::text::texts(sorted@) =~= Seq::<Seq<char>>::empty());
    while i < list.len()
        invariant
            i <= list@.len(),
            view == crate::text::texts(list@),
            crate::text::texts(sorted@) == paths_in_order(view.take(i as int)),
        decreases list@.len() - i,
    {
        assert(view.take(i + 1).drop_last() =~= view.take(i as int));
        assert(view.take(i + 1).last() == list@[i as int]@);
        place_path(&mut sorted, list[i].clone());
        i = i + 1;
    }
    assert(view.take(view.len() as int) =~= view);
    sorted
}

} // verus!
