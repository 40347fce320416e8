//! Paths as text: their last component, what stands before it, and joining.
use vstd::prelude::*;
use vstd::string::*;

use crate::text::{chars_of, string_between};

verus! {

/// A path without what follows its last component: slashes, and components that stand for the
/// directory they are in.
pub open spec fn trimmed(s: Seq<char>) -> Seq<char>
    decreases s.len(),
{
    if s.len() > 0 && s.last() == '/' {
        trimmed(s.drop_last())
    } else if s.len() > 1 && s.last() == '.' && s[s.len() - 2] == '/' {
        trimmed(s.drop_last())
    } else {
        s
    }
}

/// How many characters at the end of `s` follow its last slash.
pub open spec fn tail_len(s: Seq<char>) -> nat
    decreases s.len(),
{
    if s.len() == 0 || s.last() == '/' {
        0
    } else {
        1 + tail_len(s.drop_last())
    }
}

/// What follows the last slash of `s`.
pub open spec fn last_part(s: Seq<char>) -> Seq<char> {
    s.skip(s.len() - tail_len(s))
}

/// The last component of a path, where it names a file or a directory.
pub open spec fn file_name(s: Seq<char>) -> Option<Seq<char>> {
    let name = last_part(trimmed(s));
    if name.len() == 0 || name == seq!['.'] || name == seq!['.', '.'] {
        None
    } else {
        Some(name)
    }
}

/// How many characters stand before the last dot of `s`; none where there is no dot.
pub open spec fn before_last_dot(s: Seq<char>) -> nat
    decreases s.len(),
{
    if s.len() == 0 {
        0
    } else if s.last() == '.' {
        (s.len() - 1) as nat
    } else {
        before_last_dot(s.drop_last())
    }
}

/// A name without its extension. A name whose only dot comes first has none.
pub open spec fn stem(name: Seq<char>) -> Seq<char> {
    if before_last_dot(name) > 0 {
        name.take(before_last_dot(name) as int)
    } else {
        name
    }
}

pub open spec fn file_stem(s: Seq<char>) -> Option<Seq<char>> {
    match file_name(s) {
        Some(name) => Some(stem(name)),
        None => None,
    }
}

/// What follows the last dot of a name. A name whose only dot comes first has no extension.
pub open spec fn extension(s: Seq<char>) -> Option<Seq<char>> {
    match file_name(s) {
        Some(name) => if before_last_dot(name) > 0 {
            Some(name.skip((before_last_dot(name) + 1) as int))
        } else {
            None
        },
        None => None,
    }
}

/// The path with its extension replaced, or with one added where it has none. A path without a last
/// component stays as it is.
pub open spec fn with_extension(s: Seq<char>, ext: Seq<char>) -> Seq<char> {
    match file_name(s) {
        Some(name) => trimmed(s).take(trimmed(s).len() - name.len() + stem(name).len()) + seq!['.']
            + ext,
        None => s,
    }
}

/// The path that holds the last component of a path that has one.
pub open spec fn parent(s: Seq<char>) -> Seq<char> {
    let t = trimmed(s);
    let above = trimmed(t.take(t.len() - tail_len(t)));
    if above.len() == 0 && s.len() > 0 && s[0] == '/' {
        seq!['/']
    } else {
        above
    }
}

/// A name in a directory.
pub open spec fn joined(dir: Seq<char>, name: Seq<char>) -> Seq<char> {
    if dir.len() == 0 || dir.last() == '/' {
        dir + name
    } else {
        dir + seq!['/'] + name
    }
}

/// The path with its last component replaced, or with one added where it has none.
pub open spec fn with_file_name(s: Seq<char>, name: Seq<char>) -> Seq<char> {
    if file_name(s) is Some {
        joined(parent(s), name)
    } else {
        joined(s, name)
    }
}

fn trimmed_end(chars: &[char], to: usize) -> (n: usize)
    requires
        to <= chars@.len(),
    ensures
        n <= to,
        trimmed(chars@.take(to as int)) == chars@.take(n as int),
{
    let mut n: usize = to;
    while n > 0 && (chars[n - 1] == '/' || (n > 1 && chars[n - 1] == '.' && chars[n - 2] == '/'))
        invariant
            n <= to <= chars@.len(),
            trimmed(chars@.take(to as int)) == trimmed(chars@.take(n as int)),
        decreases n,
    {
        assert(chars@.take(n as int).drop_last() =~= chars@.take(n - 1));
        n = n - 1;
    }
    n
}

fn tail_start(chars: &[char], to: usize) -> (n: usize)
    requires
        to <= chars@.len(),
    ensures
        n <= to,
        n == to - tail_len(chars@.take(to as int)),
{
    let mut n: usize = to;
    while n > 0 && chars[n - 1] != '/'
        invariant
            n <= to <= chars@.len(),
            tail_len(chars@.take(to as int)) == (to - n) + tail_len(chars@.take(n as int)),
        decreases n,
    {
        assert(chars@.take(n as int).drop_last() =~= chars@.take(n - 1));
        n = n - 1;
    }
    n
}

/// The bounds of the last component, where it names something.
fn name_bounds(chars: &[char]) -> (r: Option<(usize, usize)>)
    ensures
        match r {
            Some((from, to)) => from <= to <= chars@.len() && trimmed(chars@) == chars@.take(
                to as int,
            ) && from == to - tail_len(trimmed(chars@)) && file_name(chars@) == Some(
                chars@.subrange(from as int, to as int),
            ),
            None => file_name(chars@) is None,
        },
{
    let len: usize = chars.len();
    assert(chars@.take(len as int) =~= chars@);
    let to: usize = trimmed_end(chars, len);
    let from: usize = tail_start(chars, to);
    let ghost name = last_part(trimmed(chars@));
    assert(name =~= chars@.subrange(from as int, to as int));
    if from == to {
        return None;
    }
    if to - from == 1 && chars[from] == '.' {
        assert(name =~= seq!['.']);
        return None;
    }
    if to - from == 2 && chars[from] == '.' && chars[from + 1] == '.' {
        assert(name =~= seq!['.', '.']);
        return None;
    }
    proof {
        if name == seq!['.'] {
            assert(name[0] == '.');
        }
        if name == seq!['.', '.'] {
            assert(name[0] == '.' && name[1] == '.');
        }
    }
    Some((from, to))
}

/// How many of the characters between two places stand before their last dot.
fn dot_before(chars: &[char], from: usize, to: usize) -> (n: usize)
    requires
        from <= to <= chars@.len(),
    ensures
        n == before_last_dot(chars@.subrange(from as int, to as int)),
        n > 0 ==> n < to - from,
{
    let ghost name = chars@.subrange(from as int, to as int);
    let mut n: usize = to;
    assert(name.take(to - from) =~= name);
    while n > from && chars[n - 1] != '.'
        invariant
            from <= n <= to <= chars@.len(),
            name == chars@.subrange(from as int, to as int),
            before_last_dot(name) == before_last_dot(name.take(n - from)),
        decreases n,
    {
        assert(name.take(n - from).drop_last() =~= name.take(n - from - 1));
        n = n - 1;
    }
    if n > from {
        assert(name.take(n - from).last() == '.');
        n - 1 - from
    } else {
        assert(name.take(0) =~= Seq::<char>::empty());
        0
    }
}

/// The last component of a path, where it names a file or a directory.
pub fn file_name_of(path: &str) -> (r: Option<String>)
    ensures
        match r {
            Some(s) => file_name(path@) == Some(s@),
            None => file_name(path@) is None,
        },
{
    let chars: Vec<char> = chars_of(path);
    match name_bounds(chars.as_slice()) {
        None => None,
        Some((from, to)) => Some(string_between(chars.as_slice(), from, to)),
    }
}

/// The name of a file without its extension.
pub fn file_stem_of(path: &str) -> (r: Option<String>)
    ensures
        match r {
            Some(s) => file_stem(path@) == Some(s@),
            None => file_stem(path@) is None,
        },
{
    let chars: Vec<char> = chars_of(path);
    match name_bounds(chars.as_slice()) {
        None => None,
        Some((from, to)) => {
            let ghost name = chars@.subrange(from as int, to as int);
            let n: usize = dot_before(chars.as_slice(), from, to);
            let end: usize = if n > 0 {
                from + n
            } else {
                to
            };
            let s: String = string_between(chars.as_slice(), from, end);
            assert(s@ =~= stem(name));
            Some(s)
        },
    }
}

/// What follows the last dot of the name of a file.
pub fn extension_of(path: &str) -> (r: Option<String>)
    ensures
        match r {
            Some(s) => extension(path@) == Some(s@),
            None => extension(path@) is None,
        },
{
    let chars: Vec<char> = chars_of(path);
    match name_bounds(chars.as_slice()) {
        None => None,
        Some((from, to)) => {
            let ghost name = chars@.subrange(from as int, to as int);
            let n: usize = dot_before(chars.as_slice(), from, to);
            if n > 0 {
                let s: String = string_between(chars.as_slice(), from + n + 1, to);
                assert(s@ =~= name.skip(n + 1));
                Some(s)
            } else {
                None
            }
        },
    }
}

/// The path with its extension replaced.
pub fn replace_extension(path: &str, ext: &str) -> (p: String)
    ensures
        p@ == with_extension(path@, ext@),
{
    let chars: Vec<char> = chars_of(path);
    match name_bounds(chars.as_slice()) {
        None => path.to_owned(),
        Some((from, to)) => {
            let ghost name = chars@.subrange(from as int, to as int);
            let n: usize = dot_before(chars.as_slice(), from, to);
            let end: usize = if n > 0 {
                from + n
            } else {
                to
            };
            let mut p: String = string_between(chars.as_slice(), 0, end);
            assert(p@ =~= trimmed(path@).take(trimmed(path@).len() - name.len() + stem(name).len()));
            p.append(".");
            proof {
                reveal_strlit(".");
                assert("."@ =~= seq!['.']);
            }
            p.append(ext);
            p
        },
    }
}

/// What follows the last slash of a text.
pub fn last_part_of(s: &str) -> (p: String)
    ensures
        p@ == last_part(s@),
{
    let chars: Vec<char> = chars_of(s);
    let len: usize = chars.len();
    assert(chars@.take(len as int) =~= chars@);
    let from: usize = tail_start(chars.as_slice(), len);
    let p: String = string_between(chars.as_slice(), from, len);
    assert(p@ =~= last_part(s@));
    p
}

/// Whether the last component of a path is `name`.
pub fn ends_with_component(path: &str, name: &str) -> (r: bool)
    ensures
        r == (file_name(path@) == Some(name@)),
{
    let chars: Vec<char> = chars_of(path);
    match name_bounds(chars.as_slice()) {
        None => false,
        Some((from, to)) => {
            let last: String = string_between(chars.as_slice(), from, to);
            crate::text::same(last.as_str(), name)
        },
    }
}

/// A name in a directory.
pub fn join(dir: &str, name: &str) -> (p: String)
    ensures
        p@ == joined(dir@, name@),
{
    let len: usize = dir.unicode_len();
    let mut p: String = dir.to_owned();
    if len > 0 && dir.get_char(len - 1) != '/' {
        p.append("/");
        proof {
            reveal_strlit("/");
            assert("/"@ =~= seq!['/']);
        }
    }
    p.append(name);
    p
}

/// The path with its last component replaced.
pub fn replace_file_name(path: &str, name: &str) -> (p: String)
    ensures
        p@ == with_file_name(path@, name@),
{
    let chars: Vec<char> = chars_of(path);
    match name_bounds(chars.as_slice()) {
        None => join(path, name),
        Some((from, _to)) => {
            let end: usize = trimmed_end(chars.as_slice(), from);
            proof {
                let t = trimmed(chars@);
                assert(t.take(t.len() - tail_len(t)) =~= chars@.take(from as int));
            }
            if end == 0 && chars[0] == '/' {
                proof {
                    reveal_strlit("/");
                    assert("/"@ =~= seq!['/']);
                }
                join("/", name)
            } else {
                let dir: String = string_between(chars.as_slice(), 0, end);
                assert(dir@ =~= chars@.take(end as int));
                join(dir.as_str(), name)
            }
        },
    }
}

} // verus!
