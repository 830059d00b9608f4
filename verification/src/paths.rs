//! Slash-separated paths.

use crate::text;
use vstd::prelude::*;
use vstd::string::*;

verus! {

/// The path without separators and `.` components at its end.
pub open spec fn trimmed(path: Seq<char>) -> Seq<char>
    decreases path.len(),
{
    if path.len() == 0 {
        path
    } else if path.last() == '/' {
        trimmed(path.drop_last())
    } else if path.len() >= 2 && path.last() == '.' && path[path.len() - 2] == '/' {
        trimmed(path.drop_last())
    } else {
        path
    }
}

/// Where the text behind the last separator begins.
pub open spec fn segment_start(path: Seq<char>) -> int
    decreases path.len(),
{
    if path.len() == 0 || path.last() == '/' {
        path.len() as int
    } else {
        segment_start(path.drop_last())
    }
}

/// The final component of a path: none where there is no such component, or
/// where it is `.` or `..`.
pub open spec fn file_name(path: Seq<char>) -> Option<Seq<char>> {
    let rest = trimmed(path);
    let segment = rest.skip(segment_start(rest));
    if segment.len() == 0 || segment == "."@ || segment == ".."@ {
        None
    } else {
        Some(segment)
    }
}

/// A path without its final component: none where there is no component.
pub open spec fn parent(path: Seq<char>) -> Option<Seq<char>> {
    let rest = trimmed(path);
    if rest.len() == 0 {
        None
    } else {
        let base = rest.take(segment_start(rest));
        let above = trimmed(base);
        if above.len() == 0 && base.len() > 0 {
            Some("/"@)
        } else {
            Some(above)
        }
    }
}

/// A path below a base: the path itself where it is absolute.
pub open spec fn join(base: Seq<char>, path: Seq<char>) -> Seq<char> {
    if path.len() > 0 && path[0] == '/' {
        path
    } else if base.len() > 0 && base.last() != '/' {
        base + "/"@ + path
    } else {
        base + path
    }
}

/// Whether a path begins at the root.
pub open spec fn absolute(path: Seq<char>) -> bool {
    path.len() > 0 && path[0] == '/'
}

/// The components of a path. Repeated and trailing separators separate
/// nothing, and a `.` counts only where a relative path begins with it.
pub open spec fn components(path: Seq<char>) -> Seq<Seq<char>>
    decreases path.len(),
{
    proof {
        segment_start_in_range(path);
    }
    let start = segment_start(path);
    let segment = path.skip(start);
    let before = if start == 0 {
        Seq::empty()
    } else {
        components(path.take(start - 1))
    };
    if segment.len() == 0 || (start > 0 && segment == "."@) {
        before
    } else {
        before.push(segment)
    }
}

/// What a path stands for: two paths are the same where this is.
pub struct PathKey {
    pub absolute: bool,
    pub components: Seq<Seq<char>>,
}

/// What a path stands for.
pub open spec fn path_key(path: Seq<char>) -> PathKey {
    PathKey { absolute: absolute(path), components: components(path) }
}

/// The text behind the last separator begins within the path.
pub proof fn segment_start_in_range(path: Seq<char>)
    ensures
        0 <= segment_start(path) <= path.len(),
    decreases path.len(),
{
    if path.len() > 0 && path.last() != '/' {
        segment_start_in_range(path.drop_last());
    }
}

/// The path without separators and `.` components at its end.
fn trim_end(path: &str) -> (rest: &str)
    ensures
        rest@ == trimmed(path@),
{
    let mut n: usize = path.unicode_len();
    assert(path@.take(n as int) =~= path@);
    while n > 0
        invariant_except_break
            n <= path@.len(),
            trimmed(path@) == trimmed(path@.take(n as int)),
        ensures
            n <= path@.len(),
            trimmed(path@) == path@.take(n as int),
        decreases n,
    {
        let ghost p = path@.take(n as int);
        let c = path.get_char(n - 1);
        assert(p.last() == c);
        assert(p.drop_last() =~= path@.take(n - 1));
        if c == '/' {
            n = n - 1;
        } else if n >= 2 && c == '.' && path.get_char(n - 2) == '/' {
            assert(p[n - 2] == path@[n - 2]);
            n = n - 1;
        } else {
            if n >= 2 {
                assert(p[n - 2] == path@[n - 2]);
            }
            break;
        }
    }
    path.substring_char(0, n)
}

/// Where the text behind the last separator begins.
fn start_of_segment(path: &str) -> (start: usize)
    ensures
        start == segment_start(path@),
        start <= path@.len(),
{
    let mut n: usize = path.unicode_len();
    assert(path@.take(n as int) =~= path@);
    while n > 0 && path.get_char(n - 1) != '/'
        invariant
            n <= path@.len(),
            segment_start(path@) == segment_start(path@.take(n as int)),
        decreases n,
    {
        assert(path@.take(n as int).drop_last() =~= path@.take(n - 1));
        assert(path@.take(n as int).last() == path@[n - 1]);
        n = n - 1;
    }
    if n > 0 {
        assert(path@.take(n as int).last() == path@[n - 1]);
    }
    n
}

/// The final component of a path.
pub fn file_name_of(path: &str) -> (name: Option<String>)
    ensures
        file_name(path@) == (match name {
            Some(n) => Some(n@),
            None => None,
        }),
{
    let rest = trim_end(path);
    let start = start_of_segment(rest);
    let segment = rest.substring_char(start, rest.unicode_len());
    assert(segment@ =~= rest@.skip(start as int));
    let segment = segment.to_string();
    if segment.as_str().unicode_len() == 0 || segment == ".".to_string() || segment
        == "..".to_string() {
        None
    } else {
        Some(segment)
    }
}

/// A path without its final component.
pub fn parent_of(path: &str) -> (above: Option<String>)
    ensures
        parent(path@) == (match above {
            Some(a) => Some(a@),
            None => None,
        }),
{
    let rest = trim_end(path);
    if rest.unicode_len() == 0 {
        return None;
    }
    let start = start_of_segment(rest);
    let base = rest.substring_char(0, start);
    assert(base@ =~= rest@.take(start as int));
    let above = trim_end(base);
    if above.unicode_len() == 0 && base.unicode_len() > 0 {
        Some("/".to_string())
    } else {
        Some(above.to_string())
    }
}

/// A path below a base: the path itself where it is absolute.
pub fn join_path(base: &str, path: &str) -> (joined: String)
    ensures
        joined@ == join(base@, path@),
{
    if path.unicode_len() > 0 && path.get_char(0) == '/' {
        return path.to_string();
    }
    let mut joined = base.to_string();
    let n = base.unicode_len();
    if n > 0 && base.get_char(n - 1) != '/' {
        joined.append("/");
    }
    joined.append(path);
    joined
}

/// The components of a path.
fn split_path(path: &str) -> (parts: Vec<String>)
    ensures
        text::texts(parts@) == components(path@),
    decreases path@.len(),
{
    broadcast use text::texts_push;

    let start = start_of_segment(path);
    let segment = path.substring_char(start, path.unicode_len());
    assert(segment@ =~= path@.skip(start as int));
    let segment = segment.to_string();
    let mut parts: Vec<String> = if start == 0 {
        Vec::new()
    } else {
        let above = path.substring_char(0, start - 1);
        assert(above@ =~= path@.take(start - 1));
        split_path(above)
    };
    if start == 0 {
        assert(text::texts(parts@) =~= Seq::empty());
    }
    if segment.as_str().unicode_len() > 0 && (start == 0 || segment != ".".to_string()) {
        parts.push(segment);
    }
    parts
}

/// Whether two paths are the same: both begin at the root or neither does, and
/// their components agree.
pub fn same_path(a: &str, b: &str) -> (same: bool)
    ensures
        same == (path_key(a@) == path_key(b@)),
{
    let a_absolute = a.unicode_len() > 0 && a.get_char(0) == '/';
    let b_absolute = b.unicode_len() > 0 && b.get_char(0) == '/';
    if a_absolute != b_absolute {
        return false;
    }
    let left = split_path(a);
    let right = split_path(b);
    let ghost l = components(a@);
    let ghost r = components(b@);
    if left.len() != right.len() {
        assert(l.len() != r.len());
        return false;
    }
    for i in 0..left.len()
        invariant
            left@.len() == right@.len(),
            l == text::texts(left@),
            r == text::texts(right@),
            l == components(a@),
            r == components(b@),
            forall|j: int| 0 <= j < i ==> l[j] == r[j],
    {
        if left[i] != right[i] {
            assert(l[i as int] != r[i as int]);
            return false;
        }
        assert(l[i as int] == left@[i as int]@ && r[i as int] == right@[i as int]@);
    }
    assert(l =~= r);
    true
}

/// A separator behind a path changes nothing about what it stands for, unless
/// the path is empty.
pub proof fn trailing_separator_is_ignored(path: Seq<char>)
    requires
        path.len() > 0,
    ensures
        path_key(path.push('/')) == path_key(path),
{
    let longer = path.push('/');
    assert(longer.take(longer.len() - 1) =~= path);
    assert(segment_start(longer) == longer.len());
    assert(longer.skip(longer.len() as int) =~= Seq::empty());
}

/// The file name of a path that ends in a plain component is that
/// component.
pub proof fn file_name_of_joined(base: Seq<char>, name: Seq<char>)
    requires
        name.len() > 0,
        !name.contains('/'),
        name != "."@,
        name != ".."@,
    ensures
        file_name(join(base, name)) == Some(name),
{
    reveal_strlit("/");
    reveal_strlit(".");
    let path = join(base, name);
    let n = name.len() as int;
    let m = path.len() - n;
    assert(name[n - 1] != '/');
    assert(name[0] != '/');
    assert(path.last() == name.last());
    assert(path.skip(m) =~= name);
    assert(m == 0 || path[m - 1] == '/');
    if path.len() >= 2 && path.last() == '.' && path[path.len() - 2] == '/' {
        if n >= 2 {
            assert(path[path.len() - 2] == name[n - 2]);
            assert(name.contains('/'));
        } else {
            assert(name =~= "."@);
        }
    }
    assert(trimmed(path) == path);
    segment_behind(path, m);
}

proof fn segment_behind(path: Seq<char>, m: int)
    requires
        0 <= m <= path.len(),
        m == 0 || path[m - 1] == '/',
        forall|i: int| m <= i < path.len() ==> path[i] != '/',
    ensures
        segment_start(path) == m,
    decreases path.len(),
{
    if path.len() > m {
        segment_behind(path.drop_last(), m);
    }
}

/// A relative path goes below its base, one separator apart; an absolute path
/// stands for itself, and so does any path below an empty base.
pub proof fn relative_paths_go_below(base: Seq<char>, path: Seq<char>)
    ensures
        path.len() > 0 && path[0] == '/' ==> join(base, path) == path,
        (path.len() == 0 || path[0] != '/') && base.len() > 0 && base.last() != '/' ==> join(
            base,
            path,
        ) == base + "/"@ + path,
        (path.len() == 0 || path[0] != '/') && base.len() > 0 && base.last() == '/' ==> join(
            base,
            path,
        ) == base + path,
        (path.len() == 0 || path[0] != '/') && base.len() == 0 ==> join(base, path) == path,
{
    if (path.len() == 0 || path[0] != '/') && base.len() == 0 {
        assert(base + path =~= path);
    }
}

/// A plain name below a path adds one component to what the path stands for,
/// and leads back to the path as its parent.
pub proof fn names_add_a_component(base: Seq<char>, name: Seq<char>)
    requires
        base.len() > 0,
        base.last() != '/',
        !(base.len() >= 2 && base.last() == '.' && base[base.len() - 2] == '/'),
        name.len() > 0,
        !name.contains('/'),
        name != "."@,
    ensures
        ({
            let path = base + "/"@ + name;
            &&& path_key(path).components == path_key(base).components.push(name)
            &&& path_key(path).absolute == path_key(base).absolute
            &&& parent(path) == Some(base)
        }),
{
    reveal_strlit("/");
    reveal_strlit(".");
    let path = base + "/"@ + name;
    let n = name.len() as int;
    let m = path.len() - n;
    assert(name[n - 1] != '/');
    assert(path.last() == name.last());
    assert(path[m - 1] == '/');
    assert forall|i: int| m <= i < path.len() implies path[i] != '/' by {
        assert(path[i] == name[i - m]);
    }
    segment_behind(path, m);
    assert(path.skip(m) =~= name);
    assert(path.take(m - 1) =~= base);
    assert(path[0] == base[0]);
    if path[path.len() - 1] == '.' && path[path.len() - 2] == '/' {
        if n >= 2 {
            assert(path[path.len() - 2] == name[n - 2]);
            assert(name.contains('/'));
        }
        assert(name =~= "."@);
    }
    assert(trimmed(path) == path);
    let above = path.take(m);
    assert(above.drop_last() =~= base);
    reveal_with_fuel(trimmed, 2);
    assert(trimmed(above) == base);
}

/// A `.` behind a path changes nothing about what it stands for.
pub proof fn here_is_where_it_was(base: Seq<char>)
    requires
        base.len() > 0,
    ensures
        path_key(base + "/."@) == path_key(base),
{
    reveal_strlit("/.");
    reveal_strlit(".");
    let path = base + "/."@;
    let m = path.len() - 1;
    segment_behind(path, m);
    assert(path.skip(m) =~= "."@);
    assert(path.take(m - 1) =~= base);
    assert(path[0] == base[0]);
}

/// A `.` that a relative path begins with counts, unlike any later one: a name
/// below it stands for another path than the name alone.
pub proof fn leading_dots_count(name: Seq<char>)
    requires
        name.len() > 0,
        !name.contains('/'),
        name != "."@,
    ensures
        path_key("./"@ + name).components == seq!["."@, name],
        path_key(name).components == seq![name],
        path_key("./"@ + name) != path_key(name),
{
    reveal_strlit("./");
    reveal_strlit(".");
    let path = "./"@ + name;
    assert forall|i: int| 2 <= i < path.len() implies path[i] != '/' by {
        assert(path[i] == name[i - 2]);
    }
    segment_behind(path, 2);
    assert(path.skip(2) =~= name);
    assert(path.take(1) =~= "."@);
    segment_behind("."@, 0);
    assert("."@.skip(0) =~= "."@);
    reveal_with_fuel(components, 2);
    assert(components("."@) =~= seq!["."@]);
    assert(components(path) =~= seq!["."@, name]);
    assert forall|i: int| 0 <= i < name.len() implies name[i] != '/' by {}
    segment_behind(name, 0);
    assert(name.skip(0) =~= name);
    assert(components(name) =~= seq![name]);
    assert(seq!["."@, name].len() == 2 && seq![name].len() == 1);
}

/// Where a path begins at the root it stands for another one than where it
/// does not.
pub proof fn absolute_paths_stand_apart(a: Seq<char>, b: Seq<char>)
    requires
        a.len() > 0,
        a[0] == '/',
        b.len() == 0 || b[0] != '/',
    ensures
        path_key(a) != path_key(b),
{
    assert(path_key(a).absolute != path_key(b).absolute);
}

} // verus!
