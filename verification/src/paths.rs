//! File names and the paths that they are joined to.

use vstd::prelude::*;

use crate::text;

verus! {

/// Where the last dot of a name stands, or -1.
pub open spec fn last_dot(name: Seq<char>) -> int
    decreases name.len(),
{
    if name.len() == 0 {
        -1
    } else if name.last() == '.' {
        name.len() - 1
    } else {
        last_dot(name.drop_last())
    }
}

/// A name has an extension where a dot stands in it behind its first
/// character.
pub open spec fn has_extension(name: Seq<char>) -> bool {
    last_dot(name) > 0 && name != ".."@
}

/// The name without its extension.
pub open spec fn stem(name: Seq<char>) -> Seq<char> {
    if has_extension(name) {
        name.take(last_dot(name))
    } else {
        name
    }
}

/// What stands behind the last dot of a name, or nothing where it has no
/// extension.
pub open spec fn extension(name: Seq<char>) -> Seq<char> {
    if has_extension(name) {
        name.skip(last_dot(name) + 1)
    } else {
        Seq::empty()
    }
}

fn find_last_dot(a: &[char]) -> (r: Option<usize>)
    ensures
        r is None <==> last_dot(a@) == -1,
        r matches Some(i) ==> i == last_dot(a@) && i < a@.len(),
{
    let mut i: usize = a.len();
    assert(a@.take(i as int) =~= a@);
    while i > 0
        invariant
            i <= a@.len(),
            last_dot(a@) == last_dot(a@.take(i as int)),
        decreases i,
    {
        assert(a@.take(i as int).drop_last() =~= a@.take(i - 1));
        if a[i - 1] == '.' {
            return Some(i - 1);
        }
        i = i - 1;
    }
    None
}

/// The name without its extension.
pub fn file_stem(name: &str) -> (r: String)
    ensures
        r@ == stem(name@),
{
    let a = text::chars_of(name);
    if text::same(name, "..") {
        return text::string_of(&a);
    }
    match find_last_dot(&a) {
        Some(i) => if i > 0 {
            let r = text::part_of(&a, 0, i);
            assert(r@ =~= name@.take(i as int));
            r
        } else {
            text::string_of(&a)
        },
        None => text::string_of(&a),
    }
}

/// What stands behind the last dot of a name.
pub fn file_extension(name: &str) -> (r: String)
    ensures
        r@ == extension(name@),
{
    let a = text::chars_of(name);
    if text::same(name, "..") {
        return String::new();
    }
    match find_last_dot(&a) {
        Some(i) => if i > 0 {
            let n: usize = a.len();
            let r = text::part_of(&a, i + 1, n);
            assert(r@ =~= name@.skip(i + 1));
            r
        } else {
            String::new()
        },
        None => String::new(),
    }
}

/// The path of `name` in the directory `dir`, whose parts `sep` separates.
pub open spec fn joined(dir: Seq<char>, name: Seq<char>, sep: char) -> Seq<char> {
    if dir.len() == 0 || dir.last() == sep {
        dir + name
    } else {
        dir.push(sep) + name
    }
}

/// The path of `name` in the directory `dir`.
pub fn join(dir: &str, name: &str, sep: char) -> (r: String)
    ensures
        r@ == joined(dir@, name@, sep),
{
    let a = text::chars_of(dir);
    let mut s = text::string_of(&a);
    if a.len() > 0 && a[a.len() - 1] != sep {
        s.push(sep);
    }
    s.append(name);
    s
}

/// `path` is `dir` or lies below it.
pub open spec fn below(path: Seq<char>, dir: Seq<char>, sep: char) -> bool {
    let d = text::trim_end_of(dir, sep);
    path == dir || path == d || text::starts_with(path, d.push(sep))
}

/// Whether `path` is `dir` or lies below it. Both are absolute and without
/// `.`, `..` or repeated separators.
pub fn lies_below(path: &str, dir: &str, sep: char) -> (r: bool)
    ensures
        r == below(path@, dir@, sep),
{
    let mut d = text::without_trailing(dir, sep);
    if text::same(path, dir) || text::same(path, d.as_str()) {
        return true;
    }
    d.push(sep);
    text::has_prefix(path, d.as_str())
}

// ---- laws --------------------------------------------------------------------------------------

proof fn lemma_last_dot(name: Seq<char>)
    ensures
        -1 <= last_dot(name) < name.len(),
        last_dot(name) >= 0 ==> name[last_dot(name)] == '.',
        forall|k: int| last_dot(name) < k < name.len() ==> name[k] != '.',
    decreases name.len(),
{
    if name.len() > 0 && name.last() != '.' {
        let rest = name.drop_last();
        lemma_last_dot(rest);
        assert forall|k: int| last_dot(name) < k < name.len() implies name[k] != '.' by {
            if k < name.len() - 1 {
                assert(rest[k] == name[k]);
            }
        }
        if last_dot(name) >= 0 {
            assert(rest[last_dot(name)] == name[last_dot(name)]);
        }
    }
}

/// A name is its stem, or its stem, a dot and its extension. An extension holds
/// no dot, and nothing that begins with its only dot has one.
pub proof fn lemma_name_is_stem_and_extension(name: &str, s: String, e: String)
    requires
        call_ensures(file_stem, (name,), s),
        call_ensures(file_extension, (name,), e),
    ensures
        name@ == s@ && e@.len() == 0 || s@.len() > 0 && name@ == s@.push('.') + e@,
        !e@.contains('.'),
{
    lemma_last_dot(name@);
    let i = last_dot(name@);
    if has_extension(name@) {
        assert(name@ =~= s@.push('.') + e@);
        assert forall|k: int| 0 <= k < e@.len() implies e@[k] != '.' by {
            assert(e@[k] == name@[i + 1 + k]);
        }
    }
}

/// What stands behind a dot is the extension, where the dot is not the first
/// character and none follows it.
pub proof fn lemma_extension_follows_the_dot(
    name: &str,
    front: Seq<char>,
    back: Seq<char>,
    s: String,
    e: String,
)
    requires
        name@ == front.push('.') + back,
        front.len() > 0,
        !back.contains('.'),
        front.len() > 1 || front[0] != '.' || back.len() > 0,
        call_ensures(file_stem, (name,), s),
        call_ensures(file_extension, (name,), e),
    ensures
        s@ == front,
        e@ == back,
{
    lemma_last_dot(name@);
    let i = last_dot(name@);
    assert(name@[front.len() as int] == '.');
    if i > front.len() {
        assert(back[i - front.len() - 1] == '.');
    }
    reveal_strlit("..");
    assert(name@ != ".."@) by {
        if name@ == ".."@ {
            assert(name@[0] == '.' && name@.len() == 2);
            assert(front[0] == name@[0]);
        }
    }
    assert(s@ =~= front);
    assert(e@ =~= back);
}

/// A path in a directory is the directory, one separator and the name.
pub proof fn lemma_one_separator_is_between(dir: &str, name: &str, sep: char, r: String)
    requires
        call_ensures(join, (dir, name, sep), r),
        dir@.len() > 0,
    ensures
        dir@.last() != sep ==> r@ == dir@ + seq![sep] + name@,
        dir@.last() == sep ==> r@ == dir@ + name@,
{
    assert(dir@.push(sep) =~= dir@ + seq![sep]);
}

/// What was joined to a directory lies below it.
pub proof fn lemma_joined_path_lies_below(
    dir: &str,
    name: &str,
    sep: char,
    path: String,
    shown: &str,
    r: bool,
)
    requires
        call_ensures(join, (dir, name, sep), path),
        shown@ == path@,
        dir@.len() > 0,
        dir@.last() != sep,
        call_ensures(lies_below, (shown, dir, sep), r),
    ensures
        r,
{
    assert(text::trim_end_of(dir@, sep) == dir@);
    assert(path@.take((dir@.len() + 1) as int) =~= dir@.push(sep));
}

/// A path that only begins with the same characters does not lie below a
/// directory: behind the directory a separator has to follow.
pub proof fn lemma_neighbour_does_not_lie_below(
    dir: &str,
    more: Seq<char>,
    sep: char,
    path: &str,
    r: bool,
)
    requires
        dir@.len() > 0,
        dir@.last() != sep,
        more.len() > 0,
        more[0] != sep,
        path@ == dir@ + more,
        call_ensures(lies_below, (path, dir, sep), r),
    ensures
        !r,
{
    assert(text::trim_end_of(dir@, sep) == dir@);
    assert(path@[dir@.len() as int] == more[0]);
    if path@.take((dir@.len() + 1) as int) == dir@.push(sep) {
        assert(path@.take((dir@.len() + 1) as int)[dir@.len() as int] == sep);
    }
}

/// A path that differs from a directory within its length does not lie below it.
pub proof fn lemma_other_path_does_not_lie_below(dir: &str, sep: char, path: &str, i: int, r: bool)
    requires
        dir@.len() > 0,
        dir@.last() != sep,
        0 <= i < dir@.len(),
        i < path@.len() ==> path@[i] != dir@[i],
        call_ensures(lies_below, (path, dir, sep), r),
    ensures
        !r,
{
    assert(text::trim_end_of(dir@, sep) == dir@);
    if text::starts_with(path@, dir@.push(sep)) {
        assert(path@.take((dir@.len() + 1) as int)[i] == dir@.push(sep)[i]);
    }
}

} // verus!
