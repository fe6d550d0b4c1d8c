//! Findings of project validation and the order in which they are
//! reported.

use vstd::prelude::*;
use crate::text::{chars_of, owned};

verus! {

/// How serious a finding is.
#[derive(Debug, Clone, Copy, PartialEq, Eq, Structural)]
pub enum ValidationSeverity {
    Error,
    Warning,
    Information,
}

/// One problem, or one piece of information, found while validating a
/// project.
#[derive(Debug)]
pub struct ProjectValidationFinding {
    pub severity: ValidationSeverity,
    /// A stable code for the kind of finding.
    pub code: String,
    /// The file the finding is about.
    pub path: String,
    /// The task the finding is about, if any.
    pub task_ref: Option<String>,
    pub message: String,
}

/// What a finding says: its severity, code, path, task and message.
pub struct FindingView {
    pub severity: ValidationSeverity,
    pub code: Seq<char>,
    pub path: Seq<char>,
    pub task_ref: Option<Seq<char>>,
    pub message: Seq<char>,
}

impl View for ProjectValidationFinding {
    type V = FindingView;

    open spec fn view(&self) -> FindingView {
        FindingView {
            severity: self.severity,
            code: self.code@,
            path: self.path@,
            task_ref: opt_view(self.task_ref),
            message: self.message@,
        }
    }
}

/// What a list of findings says.
pub open spec fn findings_view(fs: Seq<ProjectValidationFinding>) -> Seq<FindingView> {
    fs.map_values(|f: ProjectValidationFinding| f@)
}

/// A finding of the given severity, code, path, task and message.
pub open spec fn fview(
    severity: ValidationSeverity,
    code: Seq<char>,
    path: Seq<char>,
    task_ref: Option<Seq<char>>,
    message: Seq<char>,
) -> FindingView {
    FindingView { severity, code, path, task_ref, message }
}

/// Appends `f` to `findings`.
pub fn push_finding(findings: &mut Vec<ProjectValidationFinding>, f: ProjectValidationFinding)
    ensures
        findings_view(final(findings)@) == findings_view(old(findings)@).push(f@),
{
    findings.push(f);
    assert(findings_view(findings@) =~= findings_view(old(findings)@).push(f@));
}

/// The findings of a validation, in reporting order.
#[derive(Debug)]
pub struct ProjectValidationResult {
    pub findings: Vec<ProjectValidationFinding>,
}

/// The view of an optional string.
pub open spec fn opt_view(o: Option<String>) -> Option<Seq<char>> {
    match o {
        Some(s) => Some(s@),
        None => None,
    }
}

/// Whether `f` has the given severity, code, path, task and message.
pub open spec fn finding_is(
    f: ProjectValidationFinding,
    severity: ValidationSeverity,
    code: Seq<char>,
    path: Seq<char>,
    task_ref: Option<Seq<char>>,
    message: Seq<char>,
) -> bool {
    &&& f.severity == severity
    &&& f.code@ == code
    &&& f.path@ == path
    &&& opt_view(f.task_ref) == task_ref
    &&& f.message@ == message
}

/// The view of an optional string slice.
pub open spec fn opt_str_view(o: Option<&str>) -> Option<Seq<char>> {
    match o {
        Some(s) => Some(s@),
        None => None,
    }
}

/// A finding of the given severity.
pub fn finding(
    severity: ValidationSeverity,
    code: &str,
    path: &str,
    task_ref: Option<&str>,
    message: String,
) -> (f: ProjectValidationFinding)
    ensures
        finding_is(f, severity, code@, path@, opt_str_view(task_ref), message@),
        f@ == fview(severity, code@, path@, opt_str_view(task_ref), message@),
{
    let task_ref = match task_ref {
        Some(t) => Some(owned(t)),
        None => None,
    };
    ProjectValidationFinding { severity, code: owned(code), path: owned(path), task_ref, message }
}

/// An error finding.
pub fn error(code: &str, path: &str, task_ref: Option<&str>, message: String) -> (f:
    ProjectValidationFinding)
    ensures
        finding_is(f, ValidationSeverity::Error, code@, path@, opt_str_view(task_ref), message@),
        f@ == fview(ValidationSeverity::Error, code@, path@, opt_str_view(task_ref), message@),
{
    finding(ValidationSeverity::Error, code, path, task_ref, message)
}

/// A warning finding.
pub fn warning(code: &str, path: &str, task_ref: Option<&str>, message: String) -> (f:
    ProjectValidationFinding)
    ensures
        finding_is(f, ValidationSeverity::Warning, code@, path@, opt_str_view(task_ref), message@),
        f@ == fview(ValidationSeverity::Warning, code@, path@, opt_str_view(task_ref), message@),
{
    finding(ValidationSeverity::Warning, code, path, task_ref, message)
}

/// An informational finding.
pub fn info(code: &str, path: &str, task_ref: Option<&str>, message: String) -> (f:
    ProjectValidationFinding)
    ensures
        finding_is(f, ValidationSeverity::Information, code@, path@, opt_str_view(task_ref), message@),
        f@ == fview(ValidationSeverity::Information, code@, path@, opt_str_view(task_ref), message@),
{
    finding(ValidationSeverity::Information, code, path, task_ref, message)
}

// ---------------------------------------------------------------------
// Reporting order
// ---------------------------------------------------------------------

/// Errors first, then warnings, then information.
pub open spec fn rank_of(s: ValidationSeverity) -> nat {
    match s {
        ValidationSeverity::Error => 0,
        ValidationSeverity::Warning => 1,
        ValidationSeverity::Information => 2,
    }
}

/// The rank of a finding's severity.
pub fn severity_rank(f: &ProjectValidationFinding) -> (r: u8)
    ensures
        r == rank_of(f.severity),
{
    match f.severity {
        ValidationSeverity::Error => 0,
        ValidationSeverity::Warning => 1,
        ValidationSeverity::Information => 2,
    }
}

/// The order of strings: character by character, a proper prefix first.
pub open spec fn text_lt(a: Seq<char>, b: Seq<char>) -> bool
    decreases a.len(),
{
    if a.len() == 0 {
        b.len() > 0
    } else if b.len() == 0 {
        false
    } else if a[0] < b[0] {
        true
    } else if a[0] == b[0] {
        text_lt(a.drop_first(), b.drop_first())
    } else {
        false
    }
}

/// The task of a finding, the empty text when there is none.
pub open spec fn task_key(f: ProjectValidationFinding) -> Seq<char> {
    match f.task_ref {
        Some(t) => t@,
        None => Seq::empty(),
    }
}

/// Whether two findings have the same sort key: severity, code, task and
/// path.
pub open spec fn same_key(a: ProjectValidationFinding, b: ProjectValidationFinding) -> bool {
    &&& rank_of(a.severity) == rank_of(b.severity)
    &&& a.code@ == b.code@
    &&& task_key(a) == task_key(b)
    &&& a.path@ == b.path@
}

/// Whether `a` is reported before `b`: by severity, then code, then task,
/// then path.
pub open spec fn finding_lt(a: ProjectValidationFinding, b: ProjectValidationFinding) -> bool {
    ||| rank_of(a.severity) < rank_of(b.severity)
    ||| (rank_of(a.severity) == rank_of(b.severity) && text_lt(a.code@, b.code@))
    ||| (rank_of(a.severity) == rank_of(b.severity) && a.code@ == b.code@ && text_lt(task_key(a), task_key(b)))
    ||| (rank_of(a.severity) == rank_of(b.severity) && a.code@ == b.code@ && task_key(a) == task_key(b)
        && text_lt(a.path@, b.path@))
}

/// `after` holds the findings of `before` sorted by [`finding_lt`],
/// findings with the same key keeping their order: `perm[k]` is where
/// `after[k]` stood in `before`.
pub open spec fn stably_sorted_by(
    before: Seq<ProjectValidationFinding>,
    after: Seq<ProjectValidationFinding>,
    perm: Seq<int>,
) -> bool {
    &&& after.len() == before.len()
    &&& perm.len() == before.len()
    &&& forall|k: int| 0 <= k < perm.len() ==> 0 <= #[trigger] perm[k] < before.len()
    &&& forall|k: int, l: int| 0 <= k < l < perm.len() ==> perm[k] != perm[l]
    &&& forall|k: int| 0 <= k < after.len() ==> #[trigger] after[k] == before[perm[k]]
    &&& forall|k: int, l: int| 0 <= k < l < after.len() ==> !finding_lt(after[l], after[k])
    &&& forall|k: int, l: int| 0 <= k < l < after.len() && same_key(after[k], after[l]) ==> perm[k] < perm[l]
}

pub proof fn lemma_text_lt_irreflexive(a: Seq<char>)
    ensures
        !text_lt(a, a),
    decreases a.len(),
{
    if a.len() > 0 {
        lemma_text_lt_irreflexive(a.drop_first());
    }
}

pub proof fn lemma_text_lt_asymmetric(a: Seq<char>, b: Seq<char>)
    ensures
        text_lt(a, b) ==> !text_lt(b, a),
    decreases a.len(),
{
    if a.len() > 0 && b.len() > 0 && a[0] == b[0] {
        lemma_text_lt_asymmetric(a.drop_first(), b.drop_first());
    }
}

pub proof fn lemma_text_lt_transitive(a: Seq<char>, b: Seq<char>, c: Seq<char>)
    ensures
        text_lt(a, b) && text_lt(b, c) ==> text_lt(a, c),
    decreases a.len(),
{
    if a.len() > 0 && b.len() > 0 && c.len() > 0 {
        lemma_text_lt_transitive(a.drop_first(), b.drop_first(), c.drop_first());
    }
}

pub proof fn lemma_text_lt_total(a: Seq<char>, b: Seq<char>)
    ensures
        text_lt(a, b) || text_lt(b, a) || a == b,
    decreases a.len(),
{
    if a.len() > 0 && b.len() > 0 {
        lemma_text_lt_total(a.drop_first(), b.drop_first());
        if a[0] == b[0] && a.drop_first() == b.drop_first() {
            assert(a =~= seq![a[0]] + a.drop_first());
            assert(b =~= seq![b[0]] + b.drop_first());
        }
    } else if a.len() == 0 && b.len() == 0 {
        assert(a =~= b);
    }
}

proof fn lemma_finding_order(
    a: ProjectValidationFinding,
    b: ProjectValidationFinding,
    c: ProjectValidationFinding,
)
    ensures
        !finding_lt(a, a),
        finding_lt(a, b) ==> !finding_lt(b, a),
        finding_lt(a, b) || finding_lt(b, a) || same_key(a, b),
        same_key(a, b) ==> !finding_lt(a, b),
        finding_lt(a, b) && finding_lt(b, c) ==> finding_lt(a, c),
        finding_lt(a, b) && same_key(b, c) ==> finding_lt(a, c),
        same_key(a, b) && finding_lt(b, c) ==> finding_lt(a, c),
        !finding_lt(b, a) && !finding_lt(c, b) ==> !finding_lt(c, a),
{
    lemma_text_lt_irreflexive(a.code@);
    lemma_text_lt_irreflexive(task_key(a));
    lemma_text_lt_irreflexive(a.path@);
    lemma_text_lt_asymmetric(a.code@, b.code@);
    lemma_text_lt_asymmetric(task_key(a), task_key(b));
    lemma_text_lt_asymmetric(a.path@, b.path@);
    lemma_text_lt_total(a.code@, b.code@);
    lemma_text_lt_total(task_key(a), task_key(b));
    lemma_text_lt_total(a.path@, b.path@);
    lemma_text_lt_total(b.code@, c.code@);
    lemma_text_lt_total(task_key(b), task_key(c));
    lemma_text_lt_total(b.path@, c.path@);
    lemma_text_lt_total(a.code@, c.code@);
    lemma_text_lt_total(task_key(a), task_key(c));
    lemma_text_lt_total(a.path@, c.path@);
    lemma_text_lt_transitive(a.code@, b.code@, c.code@);
    lemma_text_lt_transitive(task_key(a), task_key(b), task_key(c));
    lemma_text_lt_transitive(a.path@, b.path@, c.path@);
    lemma_text_lt_transitive(c.code@, a.code@, b.code@);
    lemma_text_lt_transitive(task_key(c), task_key(a), task_key(b));
    lemma_text_lt_transitive(c.path@, a.path@, b.path@);
    lemma_text_lt_transitive(b.code@, c.code@, a.code@);
    lemma_text_lt_transitive(task_key(b), task_key(c), task_key(a));
    lemma_text_lt_transitive(b.path@, c.path@, a.path@);
    lemma_text_lt_asymmetric(c.code@, a.code@);
    lemma_text_lt_asymmetric(task_key(c), task_key(a));
    lemma_text_lt_asymmetric(c.path@, a.path@);
    lemma_text_lt_asymmetric(b.code@, c.code@);
    lemma_text_lt_asymmetric(task_key(b), task_key(c));
    lemma_text_lt_asymmetric(b.path@, c.path@);
    lemma_text_lt_irreflexive(b.code@);
    lemma_text_lt_irreflexive(task_key(b));
    lemma_text_lt_irreflexive(b.path@);
}

/// `text_lt` on character vectors.
fn chars_lt(a: &Vec<char>, b: &Vec<char>) -> (r: bool)
    ensures
        r == text_lt(a@, b@),
{
    let mut i: usize = 0;
    assert(a@.skip(0) =~= a@);
    assert(b@.skip(0) =~= b@);
    while i < a.len() && i < b.len() && a[i] == b[i]
        invariant
            i <= a.len(),
            i <= b.len(),
            text_lt(a@, b@) == text_lt(a@.skip(i as int), b@.skip(i as int)),
        decreases a.len() - i,
    {
        proof {
            let sa = a@.skip(i as int);
            let sb = b@.skip(i as int);
            assert(sa.drop_first() =~= a@.skip(i + 1));
            assert(sb.drop_first() =~= b@.skip(i + 1));
            assert(sa[0] == a@[i as int]);
            assert(sb[0] == b@[i as int]);
        }
        i = i + 1;
    }
    proof {
        let sa = a@.skip(i as int);
        let sb = b@.skip(i as int);
        if i < a.len() && i < b.len() {
            assert(sa[0] == a@[i as int]);
            assert(sb[0] == b@[i as int]);
        }
    }
    if i == a.len() {
        i < b.len()
    } else if i == b.len() {
        false
    } else {
        a[i] < b[i]
    }
}

/// Whether `a` is reported before `b`.
pub fn finding_before(a: &ProjectValidationFinding, b: &ProjectValidationFinding) -> (r: bool)
    ensures
        r == finding_lt(*a, *b),
{
    let ra = severity_rank(a);
    let rb = severity_rank(b);
    if ra != rb {
        return ra < rb;
    }
    let ca = chars_of(a.code.as_str());
    let cb = chars_of(b.code.as_str());
    if chars_lt(&ca, &cb) {
        return true;
    }
    proof {
        lemma_text_lt_total(a.code@, b.code@);
    }
    if chars_lt(&cb, &ca) {
        proof {
            lemma_text_lt_asymmetric(b.code@, a.code@);
        }
        return false;
    }
    let ta = match &a.task_ref {
        Some(t) => chars_of(t.as_str()),
        None => Vec::new(),
    };
    let tb = match &b.task_ref {
        Some(t) => chars_of(t.as_str()),
        None => Vec::new(),
    };
    assert(ta@ =~= task_key(*a));
    assert(tb@ =~= task_key(*b));
    if chars_lt(&ta, &tb) {
        return true;
    }
    proof {
        lemma_text_lt_total(task_key(*a), task_key(*b));
    }
    if chars_lt(&tb, &ta) {
        proof {
            lemma_text_lt_asymmetric(task_key(*b), task_key(*a));
        }
        return false;
    }
    let pa = chars_of(a.path.as_str());
    let pb = chars_of(b.path.as_str());
    chars_lt(&pa, &pb)
}

/// Sorts findings into reporting order: by severity (errors first), then
/// code, then task (findings without a task first), then path; findings
/// with the same key keep the order in which they were found.
pub fn sort_findings(findings: Vec<ProjectValidationFinding>) -> (sorted: Vec<
    ProjectValidationFinding,
>)
    ensures
        exists|perm: Seq<int>| stably_sorted_by(findings@, sorted@, perm),
{
    let ghost before = findings@;
    assert(before.len() == findings.len());
    assert(before.skip(0) =~= before);
    let mut input = findings;
    let mut out: Vec<ProjectValidationFinding> = Vec::new();
    let ghost mut perm: Seq<int> = Seq::empty();
    let mut i: usize = 0;
    while input.len() > 0
        invariant
            i + input@.len() == before.len(),
            before.len() <= usize::MAX,
            input@ == before.skip(i as int),
            out@.len() == i,
            perm.len() == i,
            forall|k: int| 0 <= k < i ==> 0 <= #[trigger] perm[k] < i,
            forall|k: int, l: int| 0 <= k < l < i ==> perm[k] != perm[l],
            forall|k: int| 0 <= k < i ==> #[trigger] out@[k] == before[perm[k]],
            forall|k: int, l: int| 0 <= k < l < i ==> !finding_lt(out@[l], out@[k]),
            forall|k: int, l: int| 0 <= k < l < i && same_key(out@[k], out@[l]) ==> perm[k] < perm[l],
        decreases input@.len(),
    {
        let f = input.remove(0);
        assert(f == before[i as int]);
        assert(input@ =~= before.skip(i + 1));
        let mut j = out.len();
        while j > 0 && finding_before(&f, &out[j - 1])
            invariant
                j <= out@.len(),
                forall|k: int| j <= k < out@.len() ==> finding_lt(f, #[trigger] out@[k]),
            decreases j,
        {
            j = j - 1;
        }
        proof {
            assert forall|k: int| 0 <= k < j implies !finding_lt(f, #[trigger] out@[k]) by {
                if k < j - 1 {
                    lemma_finding_order(out@[k], out@[j - 1], f);
                }
            }
        }
        let ghost old_out = out@;
        let ghost old_perm = perm;
        out.insert(j, f);
        proof {
            perm = old_perm.insert(j as int, i as int);
            assert forall|k: int| 0 <= k < i + 1 implies #[trigger] out@[k] == before[perm[k]] by {
                if k < j {
                } else if k == j {
                } else {
                    assert(out@[k] == old_out[k - 1]);
                    assert(perm[k] == old_perm[k - 1]);
                }
            }
            assert forall|k: int| 0 <= k < i + 1 implies 0 <= #[trigger] perm[k] < i + 1 by {
                if k < j {
                } else if k > j {
                    assert(perm[k] == old_perm[k - 1]);
                }
            }
            assert forall|k: int, l: int| 0 <= k < l < i + 1 implies perm[k] != perm[l] by {
                let pk = if k < j { old_perm[k] } else if k == j { i as int } else { old_perm[k - 1] };
                let pl = if l < j { old_perm[l] } else if l == j { i as int } else { old_perm[l - 1] };
                assert(perm[k] == pk);
                assert(perm[l] == pl);
            }
            assert forall|k: int, l: int| 0 <= k < l < i + 1 implies !finding_lt(out@[l], out@[k]) by {
                let ok = if k < j { old_out[k] } else if k == j { f } else { old_out[k - 1] };
                let ol = if l < j { old_out[l] } else if l == j { f } else { old_out[l - 1] };
                assert(out@[k] == ok);
                assert(out@[l] == ol);
                if k != j && l != j {
                } else if k == j {
                    lemma_finding_order(f, ol, f);
                } else {
                    lemma_finding_order(ok, f, ok);
                }
            }
            assert forall|k: int, l: int| 0 <= k < l < i + 1 && same_key(out@[k], out@[l]) implies perm[k]
                < perm[l] by {
                let ok = if k < j { old_out[k] } else if k == j { f } else { old_out[k - 1] };
                let ol = if l < j { old_out[l] } else if l == j { f } else { old_out[l - 1] };
                assert(out@[k] == ok);
                assert(out@[l] == ol);
                let pk = if k < j { old_perm[k] } else if k == j { i as int } else { old_perm[k - 1] };
                let pl = if l < j { old_perm[l] } else if l == j { i as int } else { old_perm[l - 1] };
                assert(perm[k] == pk);
                assert(perm[l] == pl);
                if k == j {
                    lemma_finding_order(f, ol, f);
                }
            }
        }
        i = i + 1;
    }
    assert(stably_sorted_by(before, out@, perm));
    out
}

}
