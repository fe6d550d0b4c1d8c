//! The library's model of file-system paths.
//!
//! A path is a string of components separated by `/`. Joining, taking the
//! parent directory and taking the final name follow the rules that std's
//! `Path` applies to such strings on Unix: trailing separators and `.`
//! components do not count, a final `..` has no name, and the parent is
//! the text before the last component, without the separators and `.`
//! components that end it.

use vstd::prelude::*;
use crate::text::{append_str, chars_of, push_char, string_of, string_of_range};

verus! {

/// `base` with `name` adjoined: an absolute `name` replaces `base`, an
/// empty `base` gives `name`, and otherwise one separator stands between
/// them unless `base` already ends with one.
pub open spec fn join_path(base: Seq<char>, name: Seq<char>) -> Seq<char> {
    if name.len() > 0 && name[0] == '/' {
        name
    } else if base.len() == 0 {
        name
    } else if base.last() == '/' {
        base + name
    } else {
        base + seq!['/'] + name
    }
}

/// `s` without its trailing separators.
pub open spec fn strip_seps(s: Seq<char>) -> Seq<char>
    decreases s.len(),
{
    if s.len() > 0 && s.last() == '/' {
        strip_seps(s.drop_last())
    } else {
        s
    }
}

/// Whether `s` ends neither with a separator nor with a `.` component
/// after one: the form of a path that std's `Path` takes apart as it is.
pub open spec fn ends_plain(s: Seq<char>) -> bool {
    s.len() == 0 || (s.last() != '/' && !(s.len() >= 2 && s.last() == '.' && s[s.len() - 2] == '/'))
}

/// `s` without its trailing separators and trailing `.` components, which
/// std's `Path` does not count as components.
pub open spec fn strip_tail(s: Seq<char>) -> Seq<char>
    decreases s.len(),
{
    if ends_plain(s) {
        s
    } else {
        strip_tail(s.drop_last())
    }
}

/// The index of the last separator in `s`, or -1.
pub open spec fn last_sep(s: Seq<char>) -> int
    decreases s.len(),
{
    if s.len() == 0 {
        -1
    } else if s.last() == '/' {
        s.len() - 1
    } else {
        last_sep(s.drop_last())
    }
}

/// The directory that holds `s`: `None` for the empty path and for the
/// root, the empty path for a single relative name. Trailing separators
/// and `.` components are not counted.
pub open spec fn parent_of(s: Seq<char>) -> Option<Seq<char>> {
    let t = strip_tail(s);
    if t.len() == 0 {
        None
    } else if last_sep(t) < 0 {
        Some(Seq::<char>::empty())
    } else {
        let h = strip_tail(t.take(last_sep(t)));
        if h.len() == 0 {
            Some(seq!['/'])
        } else {
            Some(h)
        }
    }
}

/// The final name of `s`: `None` when there is none, or when it is `.` or
/// `..`.
pub open spec fn file_name_of(s: Seq<char>) -> Option<Seq<char>> {
    let t = strip_tail(s);
    let name = t.skip(last_sep(t) + 1);
    if name.len() == 0 || name == seq!['.'] || name == seq!['.', '.'] {
        None
    } else {
        Some(name)
    }
}

/// Whether `s` is one ordinary path component: not empty, without
/// separators.
pub open spec fn is_component(s: Seq<char>) -> bool {
    &&& s.len() > 0
    &&& forall|i: int| 0 <= i < s.len() ==> #[trigger] s[i] != '/'
}

pub proof fn lemma_last_sep_bounds(s: Seq<char>)
    ensures
        -1 <= last_sep(s) < s.len(),
        last_sep(s) >= 0 ==> s[last_sep(s)] == '/',
        forall|k: int| last_sep(s) < k < s.len() ==> #[trigger] s[k] != '/',
    decreases s.len(),
{
    if s.len() > 0 && s.last() != '/' {
        lemma_last_sep_bounds(s.drop_last());
        assert forall|k: int| last_sep(s) < k < s.len() implies #[trigger] s[k] != '/' by {
            if k < s.len() - 1 {
                assert(s.drop_last()[k] == s[k]);
            }
        }
    }
}

pub proof fn lemma_strip_tail_prefix(s: Seq<char>)
    ensures
        strip_tail(s).len() <= s.len(),
        strip_tail(s) == s.take(strip_tail(s).len() as int),
        ends_plain(strip_tail(s)),
    decreases s.len(),
{
    if !ends_plain(s) {
        lemma_strip_tail_prefix(s.drop_last());
        assert(s.drop_last().take(strip_tail(s).len() as int) =~= s.take(strip_tail(s).len() as int));
    } else {
        assert(s.take(s.len() as int) =~= s);
    }
}

/// The last separator of `a + b` when `b` has none lies in `a`.
pub proof fn lemma_last_sep_append_plain(a: Seq<char>, b: Seq<char>)
    requires
        forall|i: int| 0 <= i < b.len() ==> #[trigger] b[i] != '/',
    ensures
        last_sep(a + b) == last_sep(a),
    decreases b.len(),
{
    if b.len() > 0 {
        assert((a + b).drop_last() =~= a + b.drop_last());
        assert((a + b).last() == b.last());
        lemma_last_sep_append_plain(a, b.drop_last());
    } else {
        assert(a + b =~= a);
    }
}

/// Adjoining a single component other than `.` to a directory gives a
/// path whose parent is that directory, for any directory that is empty,
/// the root, or ends with neither a separator nor a `.` component.
pub proof fn lemma_parent_of_join(dir: Seq<char>, name: Seq<char>)
    requires
        is_component(name),
        name != seq!['.'],
        dir == seq!['/'] || ends_plain(dir),
    ensures
        parent_of(join_path(dir, name)) == Some(dir),
        file_name_of(join_path(dir, name)) == (if name == seq!['.', '.'] {
            None::<Seq<char>>
        } else {
            Some(name)
        }),
{
    let p = join_path(dir, name);
    assert(name[0] != '/');
    assert(ends_plain(p)) by {
        assert(name[name.len() - 1] != '/');
        if dir.len() == 0 {
        } else if dir.last() == '/' {
            assert(p =~= dir + name);
        } else {
            assert(p =~= dir + seq!['/'] + name);
        }
        if name.len() >= 2 {
            assert(p[p.len() - 2] == name[name.len() - 2]);
        } else if p.len() >= 2 && p.last() == '.' {
            assert(name =~= seq!['.']);
        }
    }
    if dir.len() == 0 {
        assert(p == name);
        assert(Seq::<char>::empty() + name =~= name);
        lemma_last_sep_append_plain(Seq::<char>::empty(), name);
        assert(p.skip(0) =~= name);
    } else {
        let pre = if dir.last() == '/' { dir } else { dir + seq!['/'] };
        assert(p =~= pre + name);
        lemma_last_sep_append_plain(pre, name);
        assert(last_sep(pre) == pre.len() - 1);
        assert(p.take(pre.len() - 1) =~= pre.drop_last());
        assert(p.skip(pre.len() as int) =~= name);
        if dir.last() == '/' {
            assert(dir =~= seq!['/']);
            assert(pre.drop_last() =~= Seq::<char>::empty());
        } else {
            assert(pre.drop_last() =~= dir);
        }
    }
}

/// `path` relative to `root`: the empty path when they are equal, the
/// rest after `root` and its separators when `root` is a leading run of
/// whole components of `path`, and `None` otherwise.
pub open spec fn strip_root(path: Seq<char>, root: Seq<char>) -> Option<Seq<char>> {
    if path == root {
        Some(Seq::empty())
    } else if root.len() == 0 {
        Some(path)
    } else if path.len() > root.len() && path.take(root.len() as int) == root && (root.last() == '/'
        || path[root.len() as int] == '/') {
        Some(crate::text::trim_start_char(path.skip(root.len() as int), '/'))
    } else {
        None
    }
}

/// How a path is shown relative to a project root: stripped of the root
/// when it lies under it, as it is otherwise.
pub open spec fn relative_to(path: Seq<char>, root: Seq<char>) -> Seq<char> {
    match strip_root(path, root) {
        Some(r) => r,
        None => path,
    }
}

/// The final name of a path ending with an ordinary component is that
/// component, whatever precedes it.
pub proof fn lemma_file_name_of_join(base: Seq<char>, name: Seq<char>)
    requires
        is_component(name),
        name != seq!['.'],
        name != seq!['.', '.'],
    ensures
        file_name_of(join_path(base, name)) == Some(name),
{
    let p = join_path(base, name);
    assert(name[0] != '/');
    assert(name[name.len() - 1] != '/');
    let pre = if base.len() == 0 {
        Seq::<char>::empty()
    } else if base.last() == '/' {
        base
    } else {
        base + seq!['/']
    };
    assert(p =~= pre + name);
    assert(p.last() == name.last());
    if name.len() >= 2 {
        assert(p[p.len() - 2] == name[name.len() - 2]);
    } else {
        assert(name =~= seq![name[0]]);
    }
    assert(ends_plain(p));
    assert(strip_tail(p) == p);
    lemma_last_sep_append_plain(pre, name);
    if pre.len() > 0 {
        assert(pre.last() == '/');
        assert(last_sep(pre) == pre.len() - 1);
    }
    assert(p.skip(pre.len() as int) =~= name);
}

/// A path adjoined under a root reads, relative to that root, as the
/// relative path that was adjoined: `relative_to` undoes `join_path` for
/// any root and any non-empty relative path.
pub proof fn lemma_relative_to_join(root: Seq<char>, rel: Seq<char>)
    requires
        rel.len() > 0,
        rel[0] != '/',
    ensures
        relative_to(join_path(root, rel), root) == rel,
{
    let p = join_path(root, rel);
    if root.len() > 0 {
        let pre = if root.last() == '/' { root } else { root + seq!['/'] };
        assert(p =~= pre + rel);
        assert(p.take(root.len() as int) =~= root);
        let rest = p.skip(root.len() as int);
        if root.last() == '/' {
            assert(rest =~= rel);
        } else {
            assert(rest =~= seq!['/'] + rel);
            assert(rest.drop_first() =~= rel);
        }
        assert(crate::text::trim_start_char(rel, '/') == rel);
    }
}

// ---------------------------------------------------------------------
// Executable counterparts
// ---------------------------------------------------------------------

/// `join_path` on strings.
pub fn join(base: &str, name: &str) -> (r: String)
    ensures
        r@ == join_path(base@, name@),
{
    let nv = chars_of(name);
    if nv.len() > 0 && nv[0] == '/' {
        return string_of(&nv);
    }
    let bv = chars_of(base);
    if bv.len() == 0 {
        return string_of(&nv);
    }
    let mut r = string_of(&bv);
    if bv[bv.len() - 1] != '/' {
        push_char(&mut r, '/');
    }
    append_str(&mut r, name);
    r
}

/// The length of `strip_tail(v[..n])`.
fn stripped_len(v: &Vec<char>, n: usize) -> (m: usize)
    requires
        n <= v.len(),
    ensures
        m <= n,
        strip_tail(v@.take(n as int)) == v@.take(m as int),
    decreases n,
{
    let ghost t = v@.take(n as int);
    if n > 0 && (v[n - 1] == '/' || (n >= 2 && v[n - 1] == '.' && v[n - 2] == '/')) {
        assert(t.drop_last() =~= v@.take(n - 1));
        assert(!ends_plain(t));
        stripped_len(v, n - 1)
    } else {
        if n >= 2 {
            assert(t[n - 2] == v@[n - 2]);
        }
        assert(ends_plain(t));
        n
    }
}

/// `last_sep(v[..n])`, with `n` standing for "none".
fn last_sep_index(v: &Vec<char>, n: usize) -> (r: usize)
    requires
        n <= v.len(),
    ensures
        r <= n,
        r == n <==> last_sep(v@.take(n as int)) < 0,
        r < n ==> last_sep(v@.take(n as int)) == r,
    decreases n,
{
    if n == 0 {
        0
    } else if v[n - 1] == '/' {
        assert(v@.take(n as int).last() == v@[n - 1]);
        n - 1
    } else {
        assert(v@.take(n as int).last() == v@[n - 1]);
        assert(v@.take(n as int).drop_last() =~= v@.take(n - 1));
        let r = last_sep_index(v, n - 1);
        if r == n - 1 {
            n
        } else {
            r
        }
    }
}

/// `parent_of` on strings.
pub fn parent(s: &str) -> (r: Option<String>)
    ensures
        r matches Some(p) ==> parent_of(s@) == Some(p@),
        r is None <==> parent_of(s@) is None,
{
    let v = chars_of(s);
    let n = v.len();
    assert(v@.take(n as int) =~= v@);
    let t = stripped_len(&v, n);
    if t == 0 {
        return None;
    }
    let i = last_sep_index(&v, t);
    proof {
        assert(v@.take(t as int).take(i as int) =~= v@.take(i as int));
    }
    if i == t {
        return Some(String::new());
    }
    let h = stripped_len(&v, i);
    if h == 0 {
        let mut r = String::new();
        push_char(&mut r, '/');
        assert(r@ =~= seq!['/']);
        Some(r)
    } else {
        assert(v@.subrange(0, h as int) =~= v@.take(h as int));
        Some(string_of_range(&v, 0, h))
    }
}

/// `file_name_of` on strings.
pub fn file_name(s: &str) -> (r: Option<String>)
    ensures
        r matches Some(p) ==> file_name_of(s@) == Some(p@),
        r is None <==> file_name_of(s@) is None,
{
    let v = chars_of(s);
    let n = v.len();
    assert(v@.take(n as int) =~= v@);
    let t = stripped_len(&v, n);
    let i = last_sep_index(&v, t);
    let start = if i == t { 0 } else { i + 1 };
    let ghost tt = v@.take(t as int);
    assert(start <= t);
    proof {
        lemma_last_sep_bounds(tt);
    }
    assert(tt.skip(last_sep(tt) + 1) =~= v@.subrange(start as int, t as int));
    let len = t - start;
    if len == 0 {
        return None;
    }
    if len == 1 && v[start] == '.' {
        assert(v@.subrange(start as int, t as int) =~= seq!['.']);
        return None;
    }
    if len == 2 && v[start] == '.' && v[start + 1] == '.' {
        assert(v@.subrange(start as int, t as int) =~= seq!['.', '.']);
        return None;
    }
    proof {
        let nm = v@.subrange(start as int, t as int);
        if nm == seq!['.'] {
            assert(nm[0] == '.');
        }
        if nm == seq!['.', '.'] {
            assert(nm[0] == '.' && nm[1] == '.');
        }
    }
    Some(string_of_range(&v, start, t))
}

/// `relative_to` on strings.
pub fn relative(path: &str, root: &str) -> (r: String)
    ensures
        r@ == relative_to(path@, root@),
{
    let pv = chars_of(path);
    let rv = chars_of(root);
    let pl = pv.len();
    let rl = rv.len();
    if pl == rl && crate::text::matches_at(&pv, &rv, 0) {
        assert(pv@.subrange(0, rl as int) =~= pv@);
        return String::new();
    }
    if rl == 0 {
        if pl == 0 {
            assert(pv@ =~= rv@);
        }
        return crate::text::owned(path);
    }
    proof {
        if path@ == root@ {
            assert(pv@.subrange(0, rl as int) =~= pv@);
        }
    }
    if pl > rl && crate::text::matches_at(&pv, &rv, 0) && (rv[rl - 1] == '/' || pv[rl] == '/') {
        assert(pv@.subrange(0, rl as int) =~= pv@.take(rl as int));
        let rest = string_of_range(&pv, rl, pl);
        assert(rest@ =~= pv@.skip(rl as int));
        return crate::text::trim_start_matches(rest.as_str(), '/');
    }
    proof {
        if pl > rl && pv@.take(rl as int) == rv@ {
            assert(pv@.subrange(0, rl as int) =~= pv@.take(rl as int));
        }
    }
    crate::text::owned(path)
}

}
