//! Reading a task's event log: one JSON record per line.
//!
//! Splitting the log into lines and collecting what each line parsed to
//! are done here; the parsing of a line into a record is the caller's.

use vstd::prelude::*;
use crate::error::MinervaError;
use crate::text::{chars_of, decimal, decimal_string, append_str, concat, owned, string_of_range, trim, trim_bounds};

verus! {

/// The index of the first newline of `s`, or -1.
pub open spec fn first_newline(s: Seq<char>) -> int
    decreases s.len(),
{
    if s.len() == 0 {
        -1
    } else if s[0] == '\n' {
        0
    } else {
        let i = first_newline(s.drop_first());
        if i < 0 {
            -1
        } else {
            i + 1
        }
    }
}

/// A line that ended with `\r\n`, without its `\r`.
pub open spec fn strip_cr(l: Seq<char>) -> Seq<char> {
    if l.len() > 0 && l.last() == '\r' {
        l.drop_last()
    } else {
        l
    }
}

/// The lines of `s` as std's `str::lines` yields them: split at `\n`,
/// a `\r` before the `\n` removed, and no empty line after a final line
/// ending.
pub open spec fn lines_of(s: Seq<char>) -> Seq<Seq<char>>
    decreases s.len(),
{
    if s.len() == 0 {
        Seq::empty()
    } else {
        let i = first_newline(s);
        proof {
            lemma_first_newline(s);
        }
        if i < 0 {
            seq![s]
        } else {
            seq![strip_cr(s.take(i))] + lines_of(s.skip(i + 1))
        }
    }
}

/// One line of a log with its 1-based line number.
#[derive(Debug)]
pub struct LogLine {
    pub number: usize,
    pub text: String,
}

/// Whether a line holds nothing but whitespace.
pub open spec fn is_blank_line(l: Seq<char>) -> bool {
    trim(l).len() == 0
}

/// The lines of `ls` that are not blank, each with its 1-based number,
/// given that the first of `ls` has number `first`.
pub open spec fn numbered_lines(ls: Seq<Seq<char>>, first: int) -> Seq<(int, Seq<char>)>
    decreases ls.len(),
{
    if ls.len() == 0 {
        Seq::empty()
    } else if is_blank_line(ls[0]) {
        numbered_lines(ls.drop_first(), first + 1)
    } else {
        seq![(first, ls[0])] + numbered_lines(ls.drop_first(), first + 1)
    }
}

/// The number and text of a log line.
pub open spec fn line_view(l: LogLine) -> (int, Seq<char>) {
    (l.number as int, l.text@)
}

pub proof fn lemma_first_newline(s: Seq<char>)
    ensures
        -1 <= first_newline(s) < s.len(),
        first_newline(s) >= 0 ==> s[first_newline(s)] == '\n',
        forall|k: int| 0 <= k < first_newline(s) ==> #[trigger] s[k] != '\n',
        first_newline(s) < 0 ==> forall|k: int| 0 <= k < s.len() ==> #[trigger] s[k] != '\n',
    decreases s.len(),
{
    if s.len() > 0 && s[0] != '\n' {
        lemma_first_newline(s.drop_first());
        assert forall|k: int| 0 <= k < first_newline(s) implies #[trigger] s[k] != '\n' by {
            if k > 0 {
                assert(s[k] == s.drop_first()[k - 1]);
            }
        }
        if first_newline(s) < 0 {
            assert forall|k: int| 0 <= k < s.len() implies #[trigger] s[k] != '\n' by {
                if k > 0 {
                    assert(s[k] == s.drop_first()[k - 1]);
                }
            }
        }
    }
}

proof fn lemma_first_newline_at(s: Seq<char>, i: int)
    requires
        0 <= i <= s.len(),
        forall|k: int| 0 <= k < i ==> #[trigger] s[k] != '\n',
        i == s.len() || s[i] == '\n',
    ensures
        i < s.len() ==> first_newline(s) == i,
        i == s.len() ==> first_newline(s) == -1,
    decreases i,
{
    if i > 0 {
        assert forall|k: int| 0 <= k < i - 1 implies #[trigger] s.drop_first()[k] != '\n' by {
            assert(s.drop_first()[k] == s[k + 1]);
        }
        lemma_first_newline_at(s.drop_first(), i - 1);
    } else if s.len() == 0 {
    }
}

proof fn lemma_numbered_push(ls: Seq<Seq<char>>, l: Seq<char>, first: int)
    ensures
        numbered_lines(ls.push(l), first) == if is_blank_line(l) {
            numbered_lines(ls, first)
        } else {
            numbered_lines(ls, first).push((first + ls.len(), l))
        },
    decreases ls.len(),
{
    if ls.len() == 0 {
        assert(ls.push(l).drop_first() =~= Seq::<Seq<char>>::empty());
        assert(ls.push(l)[0] == l);
        assert(numbered_lines(Seq::<Seq<char>>::empty(), first + 1) == Seq::<(int, Seq<char>)>::empty());
        assert(numbered_lines(ls, first) == Seq::<(int, Seq<char>)>::empty());
        assert(seq![(first, l)] + Seq::<(int, Seq<char>)>::empty() =~= seq![(first, l)]);
        assert(Seq::<(int, Seq<char>)>::empty().push((first, l)) =~= seq![(first, l)]);
    } else {
        let t = ls.drop_first();
        assert(ls.push(l).drop_first() =~= t.push(l));
        assert(ls.push(l)[0] == ls[0]);
        assert(ls.push(l).len() > 0);
        lemma_numbered_push(t, l, first + 1);
        assert(first + 1 + t.len() == first + ls.len());
        assert(numbered_lines(ls.push(l), first) == if is_blank_line(ls[0]) {
            numbered_lines(t.push(l), first + 1)
        } else {
            seq![(first, ls[0])] + numbered_lines(t.push(l), first + 1)
        });
        assert(numbered_lines(ls, first) == if is_blank_line(ls[0]) {
            numbered_lines(t, first + 1)
        } else {
            seq![(first, ls[0])] + numbered_lines(t, first + 1)
        });
        if !is_blank_line(ls[0]) {
            if !is_blank_line(l) {
                assert(seq![(first, ls[0])] + numbered_lines(t, first + 1).push(
                    (first + ls.len(), l),
                ) =~= (seq![(first, ls[0])] + numbered_lines(t, first + 1)).push(
                    (first + ls.len(), l),
                ));
            }
        }
    }
}

/// The non-blank lines of `contents`, as `str::lines` splits it, each with
/// its 1-based line number.
pub fn event_lines(contents: &str) -> (r: Vec<LogLine>)
    ensures
        r@.map_values(|l: LogLine| line_view(l)) == numbered_lines(lines_of(contents@), 1),
{
    let v = chars_of(contents);
    let n = v.len();
    let mut out: Vec<LogLine> = Vec::new();
    let mut pos: usize = 0;
    let mut count: usize = 0;
    let ghost mut done: Seq<Seq<char>> = Seq::empty();
    assert(v@.skip(0) =~= v@);
    while pos < n
        invariant
            pos <= n == v.len(),
            lines_of(v@) == done + lines_of(v@.skip(pos as int)),
            count == done.len(),
            count <= pos,
            out@.map_values(|l: LogLine| line_view(l)) == numbered_lines(done, 1),
        decreases n - pos,
    {
        let mut j = pos;
        while j < n && v[j] != '\n'
            invariant
                pos <= j <= n == v.len(),
                forall|k: int| pos <= k < j ==> v@[k] != '\n',
            decreases n - j,
        {
            j = j + 1;
        }
        let ghost rest = v@.skip(pos as int);
        proof {
            assert forall|k: int| 0 <= k < j - pos implies #[trigger] rest[k] != '\n' by {
                assert(rest[k] == v@[pos + k]);
            }
            if j < n {
                assert(rest[j - pos] == v@[j as int]);
            }
            lemma_first_newline_at(rest, j - pos);
        }
        let end = if j < n && j > pos && v[j - 1] == '\r' { j - 1 } else { j };
        let line = string_of_range(&v, pos, end);
        proof {
            if j < n {
                assert(rest.take(j - pos) =~= v@.subrange(pos as int, j as int));
                assert(rest.skip(j - pos + 1) =~= v@.skip(j + 1));
                if end < j {
                    assert(strip_cr(rest.take(j - pos)) =~= v@.subrange(pos as int, end as int));
                } else {
                    assert(strip_cr(rest.take(j - pos)) =~= v@.subrange(pos as int, end as int));
                }
            } else {
                assert(rest =~= v@.subrange(pos as int, end as int));
            }
        }
        let ghost l = line@;
        let lv = chars_of(line.as_str());
        let (a, b) = trim_bounds(&lv);
        let blank = a == b;
        assert(blank == is_blank_line(l)) by {
            assert(lv@.subrange(a as int, b as int).len() == b - a);
        }
        proof {
            lemma_numbered_push(done, l, 1);
        }
        if !blank {
            let ghost before = out@;
            out.push(LogLine { number: count + 1, text: line });
            assert(out@.map_values(|x: LogLine| line_view(x)) =~= before.map_values(|x: LogLine| line_view(x)).push(
                (1 + done.len() as int, l),
            ));
        }
        proof {
            if j < n {
                assert(lines_of(rest) == seq![l] + lines_of(v@.skip(j + 1)));
                assert(done + lines_of(rest) =~= done.push(l) + lines_of(v@.skip(j + 1)));
            } else {
                assert(lines_of(rest) == seq![l]);
                assert(v@.skip(n as int) =~= Seq::<char>::empty());
                assert(done + lines_of(rest) =~= done.push(l) + lines_of(v@.skip(n as int)));
            }
            done = done.push(l);
        }
        count = count + 1;
        pos = if j < n { j + 1 } else { j };
    }
    assert(v@.skip(pos as int) =~= Seq::<char>::empty());
    assert(done + Seq::<Seq<char>>::empty() =~= done);
    out
}


/// A line of the event log that does not hold a valid record.
#[derive(Debug, Clone, PartialEq, Eq)]
pub struct TaskEventLogIssue {
    /// The 1-based line number.
    pub line: usize,
    /// Why the line was rejected.
    pub reason: String,
}

/// The valid records of an event log and the lines that were rejected.
#[derive(Debug)]
pub struct TaskEventLog<E> {
    pub events: Vec<E>,
    pub issues: Vec<TaskEventLogIssue>,
}

/// The values of the first `k` outcomes that parsed.
pub open spec fn parsed_upto<E>(rs: Seq<Result<E, String>>, k: int) -> Seq<E>
    decreases k,
{
    if k <= 0 {
        Seq::empty()
    } else {
        let p = parsed_upto(rs, k - 1);
        match rs[k - 1] {
            Ok(e) => p.push(e),
            Err(_) => p,
        }
    }
}

/// The line numbers and reasons of the first `k` outcomes that failed,
/// line `i` having number `numbers[i]`.
pub open spec fn issues_upto<E>(numbers: Seq<int>, rs: Seq<Result<E, String>>, k: int) -> Seq<
    (int, Seq<char>),
>
    decreases k,
{
    if k <= 0 {
        Seq::empty()
    } else {
        let p = issues_upto(numbers, rs, k - 1);
        match rs[k - 1] {
            Ok(_) => p,
            Err(m) => p.push((numbers[k - 1], m@)),
        }
    }
}

/// The number and reason of an issue.
pub open spec fn issue_view(i: TaskEventLogIssue) -> (int, Seq<char>) {
    (i.line as int, i.reason@)
}

/// The line numbers of log lines.
pub open spec fn line_numbers(lines: Seq<LogLine>) -> Seq<int> {
    lines.map_values(|l: LogLine| l.number as int)
}

/// Collects the log from its lines and what each of them parsed to:
/// `parsed[i]` is the outcome of parsing `lines[i]`. The records keep their
/// order; each failure becomes an issue of its line.
pub fn collect_event_log<E>(lines: &Vec<LogLine>, parsed: Vec<Result<E, String>>) -> (log: TaskEventLog<E>)
    requires
        lines.len() == parsed.len(),
    ensures
        log.events@ == parsed_upto(parsed@, parsed@.len() as int),
        log.issues@.map_values(|i: TaskEventLogIssue| issue_view(i)) == issues_upto(
            line_numbers(lines@),
            parsed@,
            parsed@.len() as int,
        ),
{
    let ghost all = parsed@;
    let mut rest = parsed;
    let mut events: Vec<E> = Vec::new();
    let mut issues: Vec<TaskEventLogIssue> = Vec::new();
    let mut k: usize = 0;
    assert(all.skip(0) =~= all);
    while rest.len() > 0
        invariant
            k + rest@.len() == all.len(),
            all.len() == lines.len(),
            rest@ == all.skip(k as int),
            events@ == parsed_upto(all, k as int),
            issues@.map_values(|i: TaskEventLogIssue| issue_view(i)) == issues_upto(
                line_numbers(lines@),
                all,
                k as int,
            ),
        decreases rest@.len(),
    {
        let r = rest.remove(0);
        assert(r == all[k as int]);
        assert(rest@ =~= all.skip(k + 1));
        match r {
            Ok(e) => {
                events.push(e);
            },
            Err(m) => {
                let ghost before = issues@;
                let number = lines[k].number;
                issues.push(TaskEventLogIssue { line: number, reason: m });
                assert(issues@.map_values(|i: TaskEventLogIssue| issue_view(i)) =~= before.map_values(
                    |i: TaskEventLogIssue| issue_view(i),
                ).push((line_numbers(lines@)[k as int], all[k as int]->Err_0@)));
            },
        }
        k = k + 1;
    }
    TaskEventLog { events, issues }
}

/// The index of the first failed outcome among the first `k`, or `k`.
pub open spec fn first_failed<E>(rs: Seq<Result<E, String>>, k: int) -> int
    decreases k,
{
    if k <= 0 {
        0
    } else {
        let f = first_failed(rs, k - 1);
        if f < k - 1 {
            f
        } else if rs[k - 1] is Err {
            k - 1
        } else {
            k
        }
    }
}

/// The reason given when line `number` of an event log cannot be read:
/// `line <number>: <reason>`.
pub open spec fn line_reason(number: int, reason: Seq<char>) -> Seq<char> {
    "line "@ + decimal(number as nat) + ": "@ + reason
}

/// The records of an event log whose every line must parse: the first
/// line that does not fails the whole read with a schema error of the
/// log's `path`.
pub fn collect_task_events<E>(path: &str, lines: &Vec<LogLine>, parsed: Vec<Result<E, String>>) -> (r:
    Result<Vec<E>, MinervaError>)
    requires
        lines.len() == parsed.len(),
    ensures
        first_failed(parsed@, parsed@.len() as int) == parsed@.len() ==> (r matches Ok(events)
            && events@ == parsed_upto(parsed@, parsed@.len() as int)),
        first_failed(parsed@, parsed@.len() as int) < parsed@.len() ==> (r matches Err(
            MinervaError::SchemaError { path: p, reason },
        ) && p@ == path@ && reason@ == line_reason(
            lines@[first_failed(parsed@, parsed@.len() as int)].number as int,
            parsed@[first_failed(parsed@, parsed@.len() as int)]->Err_0@,
        )),
{
    let ghost all = parsed@;
    let mut rest = parsed;
    let mut events: Vec<E> = Vec::new();
    let mut k: usize = 0;
    assert(all.skip(0) =~= all);
    while rest.len() > 0
        invariant
            k + rest@.len() == all.len(),
            all.len() == lines.len(),
            rest@ == all.skip(k as int),
            events@ == parsed_upto(all, k as int),
            first_failed(all, k as int) == k,
            all == parsed@,
        decreases rest@.len(),
    {
        let r = rest.remove(0);
        assert(r == all[k as int]);
        assert(rest@ =~= all.skip(k + 1));
        match r {
            Ok(e) => {
                events.push(e);
            },
            Err(m) => {
                proof {
                    assert(first_failed(all, k as int + 1) == k);
                    lemma_first_failed_stays(all, k as int + 1, all.len() as int);
                }
                let mut reason = concat("line ", decimal_string(lines[k].number as u64).as_str());
                append_str(&mut reason, ": ");
                append_str(&mut reason, m.as_str());
                assert(first_failed(all, all.len() as int) == k);
                assert(reason@ == line_reason(lines@[k as int].number as int, m@));
                return Err(MinervaError::SchemaError { path: owned(path), reason });
            },
        }
        k = k + 1;
    }
    Ok(events)
}

proof fn lemma_first_failed_stays<E>(rs: Seq<Result<E, String>>, k: int, n: int)
    requires
        0 < k <= n,
        first_failed(rs, k) < k,
    ensures
        first_failed(rs, n) == first_failed(rs, k),
    decreases n - k,
{
    if n > k {
        lemma_first_failed_stays(rs, k, n - 1);
    }
}


/// The strict read of an event log fails exactly when the lenient read
/// reports an issue, and then with the first issue's line and reason;
/// when there is none, both give the same records.
pub proof fn lemma_strict_read_matches_lenient<E>(numbers: Seq<int>, rs: Seq<Result<E, String>>, k: int)
    requires
        0 <= k <= rs.len(),
    ensures
        0 <= first_failed(rs, k) <= k,
        (issues_upto(numbers, rs, k).len() == 0) == (first_failed(rs, k) == k),
        first_failed(rs, k) < k ==> (rs[first_failed(rs, k)] is Err && issues_upto(numbers, rs, k)[0] == (
            numbers[first_failed(rs, k)],
            rs[first_failed(rs, k)]->Err_0@,
        )),
    decreases k,
{
    if k > 0 {
        lemma_strict_read_matches_lenient(numbers, rs, k - 1);
    }
}

}
