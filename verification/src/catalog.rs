//! Finding tasks by title or reference.

use vstd::prelude::*;
use crate::error::MinervaError;
use crate::text::{
    append_str, chars_of, concat, contains, contains_seq, eq_ascii_nocase, eq_ignore_ascii_case, lowercase,
    owned, to_lowercase, trim, trimmed,
};

verus! {

/// Whether a title matches a query exactly: both trimmed, ASCII letters
/// compared without case.
pub open spec fn exact_match(title: Seq<char>, query: Seq<char>) -> bool {
    eq_ascii_nocase(trim(title), trim(query))
}

/// Whether a title contains a query: the lowercased title contains the
/// lowercased, trimmed query.
pub open spec fn partial_match(title: Seq<char>, query: Seq<char>) -> bool {
    contains_seq(lowercase(title), lowercase(trim(query)))
}

/// Whether `title` matches `query` exactly.
pub fn title_eq(title: &str, query: &str) -> (b: bool)
    ensures
        b == exact_match(title@, query@),
{
    let t = chars_of(trimmed(title).as_str());
    let q = chars_of(trimmed(query).as_str());
    eq_ignore_ascii_case(&t, &q)
}

/// Whether `title` contains `query`.
pub fn title_contains(title: &str, query: &str) -> (b: bool)
    ensures
        b == partial_match(title@, query@),
{
    let t = chars_of(to_lowercase(title).as_str());
    let q = chars_of(to_lowercase(trimmed(query).as_str()).as_str());
    contains(&t, &q)
}

/// The items among the first `k` of `items` whose flag is set, in order.
pub open spec fn kept<T>(items: Seq<T>, flags: Seq<bool>, k: int) -> Seq<T>
    decreases k,
{
    if k <= 0 {
        Seq::empty()
    } else if flags[k - 1] {
        kept(items, flags, k - 1).push(items[k - 1])
    } else {
        kept(items, flags, k - 1)
    }
}

/// For each title, whether it matches `query` exactly.
pub open spec fn exact_flags(titles: Seq<String>, query: Seq<char>) -> Seq<bool> {
    titles.map_values(|t: String| exact_match(t@, query))
}

/// For each title, whether it contains `query`.
pub open spec fn partial_flags(titles: Seq<String>, query: Seq<char>) -> Seq<bool> {
    titles.map_values(|t: String| partial_match(t@, query))
}

/// The tasks a search for `query` finds, `titles[i]` being the title of
/// `tasks[i]`: those whose title matches exactly when there are any,
/// otherwise those whose title contains the query.
pub open spec fn search_result<T>(tasks: Seq<T>, titles: Seq<String>, query: Seq<char>) -> Seq<T> {
    let exact = kept(tasks, exact_flags(titles, query), tasks.len() as int);
    if exact.len() > 0 {
        exact
    } else {
        kept(tasks, partial_flags(titles, query), tasks.len() as int)
    }
}

fn keep<T>(items: Vec<T>, flags: &Vec<bool>) -> (r: Vec<T>)
    requires
        items.len() == flags.len(),
    ensures
        r@ == kept(items@, flags@, items@.len() as int),
{
    let ghost all = items@;
    let mut rest = items;
    let mut out: Vec<T> = Vec::new();
    let mut k: usize = 0;
    assert(all.skip(0) =~= all);
    while rest.len() > 0
        invariant
            k + rest@.len() == all.len(),
            all.len() == flags.len(),
            rest@ == all.skip(k as int),
            out@ == kept(all, flags@, k as int),
        decreases rest@.len(),
    {
        let x = rest.remove(0);
        assert(x == all[k as int]);
        assert(rest@ =~= all.skip(k + 1));
        if flags[k] {
            out.push(x);
        }
        k = k + 1;
    }
    out
}

/// Searches `tasks` by title: `titles[i]` is the title of `tasks[i]`.
pub fn search_tasks<T>(tasks: Vec<T>, titles: &Vec<String>, query: &str) -> (r: Vec<T>)
    requires
        tasks.len() == titles.len(),
    ensures
        r@ == search_result(tasks@, titles@, query@),
{
    let mut exact: Vec<bool> = Vec::new();
    let mut partial: Vec<bool> = Vec::new();
    let mut any_exact = false;
    let mut i: usize = 0;
    while i < titles.len()
        invariant
            i <= titles.len(),
            exact@ == exact_flags(titles@, query@).take(i as int),
            partial@ == partial_flags(titles@, query@).take(i as int),
            any_exact == exists|k: int| 0 <= k < i && #[trigger] exact@[k],
        decreases titles.len() - i,
    {
        let e = title_eq(titles[i].as_str(), query);
        let ghost old_exact = exact@;
        exact.push(e);
        proof {
            assert(exact@[i as int] == e);
            assert forall|k: int| 0 <= k < i implies exact@[k] == old_exact[k] by {}
        }
        partial.push(title_contains(titles[i].as_str(), query));
        any_exact = any_exact || e;
        assert(exact@ =~= exact_flags(titles@, query@).take(i + 1));
        assert(partial@ =~= partial_flags(titles@, query@).take(i + 1));
        i = i + 1;
    }
    assert(exact@ =~= exact_flags(titles@, query@));
    assert(partial@ =~= partial_flags(titles@, query@));
    let ghost ts = tasks@;
    proof {
        lemma_kept_empty(ts, exact@, ts.len() as int);
    }
    if any_exact {
        keep(tasks, &exact)
    } else {
        keep(tasks, &partial)
    }
}

proof fn lemma_kept_empty<T>(items: Seq<T>, flags: Seq<bool>, k: int)
    requires
        0 <= k <= flags.len(),
    ensures
        (kept(items, flags, k).len() == 0) <==> (forall|j: int| 0 <= j < k ==> !#[trigger] flags[j]),
    decreases k,
{
    if k > 0 {
        lemma_kept_empty(items, flags, k - 1);
    }
}

/// The label of a task in a list of candidates: its identifier, a space,
/// and its title.
pub open spec fn label_of(task_id: Seq<char>, title: Seq<char>) -> Seq<char> {
    task_id + " "@ + title
}

/// The label of a task.
pub fn task_label(task_id: &str, title: &str) -> (r: String)
    ensures
        r@ == label_of(task_id@, title@),
{
    let mut r = concat(task_id, " ");
    append_str(&mut r, title);
    r
}

/// The labels of tasks whose identifiers read `ids` and titles `titles`.
pub open spec fn labels_of(ids: Seq<Seq<char>>, titles: Seq<Seq<char>>) -> Seq<Seq<char>> {
    Seq::new(ids.len(), |i: int| label_of(ids[i], titles[i]))
}

/// The texts of a list of strings.
pub open spec fn texts(v: Seq<String>) -> Seq<Seq<char>> {
    v.map_values(|s: String| s@)
}

/// Resolves a reference that is not a task identifier from the tasks the
/// search found, `ids[i]` and `titles[i]` being those of `matches[i]`:
/// none is a missing task, one is the task, several are an ambiguous
/// reference that lists the label of each, in order.
pub fn resolve_matches<T>(task_ref: &str, matches: Vec<T>, ids: &Vec<String>, titles: &Vec<String>) -> (r: Result<
    T,
    MinervaError,
>)
    requires
        matches.len() == ids.len(),
        matches.len() == titles.len(),
    ensures
        matches@.len() == 0 ==> (r matches Err(MinervaError::TaskNotFound { task_ref: t }) && t@ == task_ref@),
        matches@.len() == 1 ==> r == Ok::<T, MinervaError>(matches@[0]),
        matches@.len() > 1 ==> (r matches Err(MinervaError::AmbiguousTaskReference { task_ref: t, matches: ls })
            && t@ == task_ref@ && texts(ls@) == labels_of(texts(ids@), texts(titles@))),
{
    let mut matches = matches;
    if matches.len() == 0 {
        Err(MinervaError::TaskNotFound { task_ref: owned(task_ref) })
    } else if matches.len() == 1 {
        Ok(matches.remove(0))
    } else {
        let mut labels: Vec<String> = Vec::new();
        let mut i: usize = 0;
        while i < ids.len()
            invariant
                i <= ids.len() == titles.len(),
                texts(labels@) == labels_of(texts(ids@), texts(titles@)).take(i as int),
            decreases ids.len() - i,
        {
            let l = task_label(ids[i].as_str(), titles[i].as_str());
            let ghost before = labels@;
            labels.push(l);
            assert(labels@ == before.push(l));
            assert(texts(labels@) =~= texts(before).push(l@));
            assert(texts(labels@) =~= labels_of(texts(ids@), texts(titles@)).take(i + 1));
            i = i + 1;
        }
        assert(labels_of(texts(ids@), texts(titles@)).take(ids.len() as int) =~= labels_of(texts(ids@), texts(titles@)));
        Err(MinervaError::AmbiguousTaskReference { task_ref: owned(task_ref), matches: labels })
    }
}

/// The positions `0..n`.
pub open spec fn positions(n: nat) -> Seq<usize> {
    Seq::new(n, |i: int| i as usize)
}

/// Resolves a reference that does not read as a task identifier against
/// the tasks whose identifiers are `ids` and titles `titles`: the search
/// by title finds the matches (as positions in the lists), which resolve
/// as [`resolve_matches`] says, each labelled by its identifier and title.
/// The result is the position of the one task found.
pub fn resolve_by_title(task_ref: &str, ids: &Vec<String>, titles: &Vec<String>) -> (r: Result<usize, MinervaError>)
    requires
        ids.len() == titles.len(),
    ensures
        ({
            let m = search_result(positions(titles@.len()), titles@, task_ref@);
            &&& m.len() == 0 ==> (r matches Err(MinervaError::TaskNotFound { task_ref: t }) && t@ == task_ref@)
            &&& m.len() == 1 ==> r == Ok::<usize, MinervaError>(m[0])
            &&& m.len() > 1 ==> (r matches Err(MinervaError::AmbiguousTaskReference { task_ref: t, matches: ls })
                && t@ == task_ref@ && texts(ls@) == labels_of(
                m.map_values(|j: usize| ids@[j as int]@),
                m.map_values(|j: usize| titles@[j as int]@),
            ))
        }),
{
    let mut all: Vec<usize> = Vec::new();
    let mut i: usize = 0;
    while i < titles.len()
        invariant
            i <= titles.len(),
            all@ == positions(titles@.len()).take(i as int),
        decreases titles.len() - i,
    {
        all.push(i);
        assert(all@ =~= positions(titles@.len()).take(i + 1));
        i = i + 1;
    }
    assert(all@ =~= positions(titles@.len()));
    let found = search_tasks(all, titles, task_ref);
    let ghost m = found@;
    proof {
        lemma_kept_within(positions(titles@.len()), crate::catalog::exact_flags(titles@, task_ref@), titles@.len() as int);
        lemma_kept_within(positions(titles@.len()), crate::catalog::partial_flags(titles@, task_ref@), titles@.len() as int);
    }
    let mut match_ids: Vec<String> = Vec::new();
    let mut match_titles: Vec<String> = Vec::new();
    let mut k: usize = 0;
    while k < found.len()
        invariant
            k <= found.len(),
            found@ == m,
            ids.len() == titles.len(),
            forall|j: int| 0 <= j < m.len() ==> (#[trigger] m[j]) < titles.len(),
            texts(match_ids@) == m.take(k as int).map_values(|j: usize| ids@[j as int]@),
            texts(match_titles@) == m.take(k as int).map_values(|j: usize| titles@[j as int]@),
        decreases found.len() - k,
    {
        let j = found[k];
        let ghost bi = match_ids@;
        let ghost bt = match_titles@;
        match_ids.push(owned(ids[j].as_str()));
        match_titles.push(owned(titles[j].as_str()));
        assert(texts(match_ids@) =~= texts(bi).push(ids@[j as int]@));
        assert(texts(match_titles@) =~= texts(bt).push(titles@[j as int]@));
        assert(texts(match_ids@) =~= m.take(k + 1).map_values(|j: usize| ids@[j as int]@));
        assert(texts(match_titles@) =~= m.take(k + 1).map_values(|j: usize| titles@[j as int]@));
        k = k + 1;
    }
    assert(m.take(m.len() as int) =~= m);
    resolve_matches(task_ref, found, &match_ids, &match_titles)
}

proof fn lemma_kept_within(items: Seq<usize>, flags: Seq<bool>, k: int)
    requires
        0 <= k <= items.len(),
        k <= flags.len(),
        forall|j: int| 0 <= j < items.len() ==> #[trigger] items[j] < items.len(),
    ensures
        forall|j: int| 0 <= j < kept(items, flags, k).len() ==> #[trigger] kept(items, flags, k)[j] < items.len(),
    decreases k,
{
    if k > 0 {
        lemma_kept_within(items, flags, k - 1);
        let p = kept(items, flags, k - 1);
        let q = kept(items, flags, k);
        assert forall|j: int| 0 <= j < q.len() implies #[trigger] q[j] < items.len() by {
            if flags[k - 1] && j == p.len() {
                assert(q[j] == items[k - 1]);
            } else {
                assert(q[j] == p[j]);
            }
        }
    }
}

/// The error for a task reference that reads as an identifier but whose
/// record does not exist.
pub fn task_not_found(task_ref: &str) -> (e: MinervaError)
    ensures
        e matches MinervaError::TaskNotFound { task_ref: t } && t@ == task_ref@,
{
    MinervaError::TaskNotFound { task_ref: owned(task_ref) }
}

/// The greatest of `sequences`, 0 when there are none: the sequence
/// number after which new task identifiers are allocated.
pub fn last_sequence(sequences: &Vec<u64>) -> (m: u64)
    ensures
        forall|i: int| 0 <= i < sequences@.len() ==> sequences@[i] <= m,
        sequences@.len() == 0 ==> m == 0,
        sequences@.len() > 0 ==> exists|i: int| 0 <= i < sequences@.len() && sequences@[i] == m,
{
    let mut m: u64 = 0;
    let mut i: usize = 0;
    while i < sequences.len()
        invariant
            i <= sequences.len(),
            forall|k: int| 0 <= k < i ==> sequences@[k] <= m,
            i == 0 ==> m == 0,
            i > 0 ==> exists|k: int| 0 <= k < i && sequences@[k] == m,
        decreases sequences.len() - i,
    {
        if i == 0 || sequences[i] > m {
            m = sequences[i];
        }
        i = i + 1;
    }
    m
}


/// Whitespace around a query changes nothing: a title matches a query,
/// exactly or as a part, just when it matches the query trimmed.
pub proof fn lemma_matching_ignores_query_whitespace(title: Seq<char>, query: Seq<char>)
    ensures
        exact_match(title, query) == exact_match(title, trim(query)),
        partial_match(title, query) == partial_match(title, trim(query)),
{
    crate::text::lemma_trim_idempotent(query);
}

/// An exact match ignores whitespace around the title too, and does not
/// depend on which side is the title: it is a case-insensitive equality
/// of the trimmed texts.
pub proof fn lemma_exact_match_symmetric(title: Seq<char>, query: Seq<char>)
    ensures
        exact_match(title, query) == exact_match(trim(title), query),
        exact_match(title, query) == exact_match(query, title),
        exact_match(title, title),
{
    crate::text::lemma_trim_idempotent(title);
}

/// A search finds the same tasks for a query and for the query trimmed.
pub proof fn lemma_search_ignores_query_whitespace<T>(tasks: Seq<T>, titles: Seq<String>, query: Seq<char>)
    ensures
        search_result(tasks, titles, query) == search_result(tasks, titles, trim(query)),
{
    crate::text::lemma_trim_idempotent(query);
    assert(exact_flags(titles, query) =~= exact_flags(titles, trim(query)));
    assert(partial_flags(titles, query) =~= partial_flags(titles, trim(query)));
}

}
