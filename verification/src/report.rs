//! Shapes the final aggregator state and the failure log into the report:
//! one total entry per author with size-sorted per-project children, the
//! flat commit list, and the failure list when it is non-empty.

use vstd::prelude::*;

use crate::aggregate::{Aggregator, AuthorStats, CommitDetail, ProjectEntry};
use crate::FailureRecord;

verus! {

/// A per-project row of the report, nested under its author's total row.
pub struct CodeStatChild {
    pub key: String,
    pub author: String,
    pub email: String,
    pub project: String,
    pub commits: u32,
    pub additions: u32,
    pub deletions: u32,
    pub lines: u32,
    pub files: u32,
    pub size: u64,
}

/// The total row of one author, carrying its per-project children.
pub struct CodeStat {
    pub key: String,
    pub author: String,
    pub email: String,
    pub project: String,
    pub commits: u32,
    pub additions: u32,
    pub deletions: u32,
    pub lines: u32,
    pub files: u32,
    pub size: u64,
    pub children: Vec<CodeStatChild>,
}

/// One row of the flat commit list.
pub struct CommitStat {
    pub author: String,
    pub email: String,
    pub project: String,
    pub branch: String,
    pub tag: String,
    pub committed_date: String,
    pub message: String,
}

/// The shaped output of a whole run.
pub struct Report {
    pub code_stats: Vec<CodeStat>,
    pub commit_stats: Vec<CommitStat>,
    pub failure_stats: Option<Vec<FailureRecord>>,
}

pub struct CodeStatChildV {
    pub key: Seq<char>,
    pub author: Seq<char>,
    pub email: Seq<char>,
    pub project: Seq<char>,
    pub commits: u32,
    pub additions: u32,
    pub deletions: u32,
    pub lines: u32,
    pub files: u32,
    pub size: u64,
}

pub struct CodeStatV {
    pub key: Seq<char>,
    pub author: Seq<char>,
    pub email: Seq<char>,
    pub project: Seq<char>,
    pub commits: u32,
    pub additions: u32,
    pub deletions: u32,
    pub lines: u32,
    pub files: u32,
    pub size: u64,
    pub children: Seq<CodeStatChildV>,
}

pub struct CommitStatV {
    pub author: Seq<char>,
    pub email: Seq<char>,
    pub project: Seq<char>,
    pub branch: Seq<char>,
    pub tag: Seq<char>,
    pub committed_date: Seq<char>,
    pub message: Seq<char>,
}

impl View for CodeStatChild {
    type V = CodeStatChildV;

    open spec fn view(&self) -> CodeStatChildV {
        CodeStatChildV {
            key: self.key@,
            author: self.author@,
            email: self.email@,
            project: self.project@,
            commits: self.commits,
            additions: self.additions,
            deletions: self.deletions,
            lines: self.lines,
            files: self.files,
            size: self.size,
        }
    }
}

impl DeepView for CodeStatChild {
    type V = CodeStatChildV;

    open spec fn deep_view(&self) -> CodeStatChildV {
        self.view()
    }
}

impl View for CodeStat {
    type V = CodeStatV;

    open spec fn view(&self) -> CodeStatV {
        CodeStatV {
            key: self.key@,
            author: self.author@,
            email: self.email@,
            project: self.project@,
            commits: self.commits,
            additions: self.additions,
            deletions: self.deletions,
            lines: self.lines,
            files: self.files,
            size: self.size,
            children: self.children.deep_view(),
        }
    }
}

impl DeepView for CodeStat {
    type V = CodeStatV;

    open spec fn deep_view(&self) -> CodeStatV {
        self.view()
    }
}

impl View for CommitStat {
    type V = CommitStatV;

    open spec fn view(&self) -> CommitStatV {
        CommitStatV {
            author: self.author@,
            email: self.email@,
            project: self.project@,
            branch: self.branch@,
            tag: self.tag@,
            committed_date: self.committed_date@,
            message: self.message@,
        }
    }
}

impl DeepView for CommitStat {
    type V = CommitStatV;

    open spec fn deep_view(&self) -> CommitStatV {
        self.view()
    }
}

/// Bytes rounded to the nearest kibibyte, an exact half rounding up
/// (away from zero).
pub open spec fn kib_of(bytes: u64) -> u64 {
    (bytes / 1024 + if bytes % 1024 >= 512 {
        1u64
    } else {
        0u64
    }) as u64
}

/// Converts a raw byte total to the report's kibibyte figure.
pub fn round_kib(bytes: u64) -> (r: u64)
    ensures
        r == kib_of(bytes),
{
    let q = bytes / 1024;
    let rem = bytes % 1024;
    if rem >= 512 {
        q + 1
    } else {
        q
    }
}

/// Stable descending insertion by `size`: the new row goes after every
/// existing row of equal or larger size.
pub open spec fn insert_child_desc(x: CodeStatChildV, s: Seq<CodeStatChildV>) -> Seq<CodeStatChildV>
    decreases s.len(),
{
    if s.len() == 0 {
        seq![x]
    } else if x.size > s[0].size {
        seq![x] + s
    } else {
        seq![s[0]] + insert_child_desc(x, s.drop_first())
    }
}

/// The stable descending sort of the rows, by `size`.
pub open spec fn sort_children_desc(s: Seq<CodeStatChildV>) -> Seq<CodeStatChildV>
    decreases s.len(),
{
    if s.len() == 0 {
        Seq::<CodeStatChildV>::empty()
    } else {
        insert_child_desc(s.last(), sort_children_desc(s.drop_last()))
    }
}

pub open spec fn children_sorted_desc(s: Seq<CodeStatChildV>) -> bool {
    forall|i: int, j: int| 0 <= i < j < s.len() ==> s[i].size >= s[j].size
}

pub open spec fn insert_stat_desc(x: CodeStatV, s: Seq<CodeStatV>) -> Seq<CodeStatV>
    decreases s.len(),
{
    if s.len() == 0 {
        seq![x]
    } else if x.size > s[0].size {
        seq![x] + s
    } else {
        seq![s[0]] + insert_stat_desc(x, s.drop_first())
    }
}

pub open spec fn sort_stats_desc(s: Seq<CodeStatV>) -> Seq<CodeStatV>
    decreases s.len(),
{
    if s.len() == 0 {
        Seq::<CodeStatV>::empty()
    } else {
        insert_stat_desc(s.last(), sort_stats_desc(s.drop_last()))
    }
}

pub open spec fn stats_sorted_desc(s: Seq<CodeStatV>) -> bool {
    forall|i: int, j: int| 0 <= i < j < s.len() ==> s[i].size >= s[j].size
}

/// Inserting at the first position whose size is smaller is exactly the
/// stable descending insertion.
proof fn lemma_insert_child_at(x: CodeStatChildV, s: Seq<CodeStatChildV>, j: int)
    requires
        children_sorted_desc(s),
        0 <= j <= s.len(),
        forall|k: int| 0 <= k < j ==> s[k].size >= x.size,
        j < s.len() ==> s[j].size < x.size,
    ensures
        insert_child_desc(x, s) =~= s.take(j) + seq![x] + s.skip(j),
    decreases s.len(),
{
    if s.len() == 0 {
    } else if x.size > s[0].size {
        assert(j == 0);
    } else {
        assert(s[0].size >= x.size);
        assert(j >= 1);
        assert(children_sorted_desc(s.drop_first())) by {
            assert(forall|a: int, b: int|
                0 <= a < b < s.drop_first().len() ==> s.drop_first()[a] == s[a + 1]
                    && s.drop_first()[b] == s[b + 1]);
        }
        lemma_insert_child_at(x, s.drop_first(), j - 1);
    }
}

proof fn lemma_insert_child_sorted(x: CodeStatChildV, s: Seq<CodeStatChildV>)
    requires
        children_sorted_desc(s),
    ensures
        children_sorted_desc(insert_child_desc(x, s)),
        insert_child_desc(x, s).len() == s.len() + 1,
    decreases s.len(),
{
    if s.len() == 0 {
    } else if x.size > s[0].size {
    } else {
        assert(children_sorted_desc(s.drop_first())) by {
            assert(forall|a: int, b: int|
                0 <= a < b < s.drop_first().len() ==> s.drop_first()[a] == s[a + 1]
                    && s.drop_first()[b] == s[b + 1]);
        }
        lemma_insert_child_sorted(x, s.drop_first());
        let r = insert_child_desc(x, s);
        let rr = insert_child_desc(x, s.drop_first());
        assert(r == seq![s[0]] + rr);
        assert forall|a: int, b: int| 0 <= a < b < r.len() implies r[a].size >= r[b].size by {
            if a == 0 {
                if b - 1 < rr.len() {
                    assert(r[b] == rr[b - 1]);
                    lemma_insert_child_member(x, s.drop_first(), b - 1);
                }
            } else {
                assert(r[a] == rr[a - 1]);
                assert(r[b] == rr[b - 1]);
            }
        }
    }
}

/// Every row of an insertion result is the inserted row or a row of the base.
proof fn lemma_insert_child_member(x: CodeStatChildV, s: Seq<CodeStatChildV>, k: int)
    requires
        0 <= k < insert_child_desc(x, s).len(),
    ensures
        insert_child_desc(x, s)[k] == x || exists|m: int|
            0 <= m < s.len() && insert_child_desc(x, s)[k] == s[m],
    decreases s.len(),
{
    if s.len() == 0 {
    } else if x.size > s[0].size {
        if k >= 1 {
            assert(insert_child_desc(x, s)[k] == s[k - 1]);
        }
    } else {
        if k >= 1 {
            lemma_insert_child_member(x, s.drop_first(), k - 1);
            if insert_child_desc(x, s.drop_first())[k - 1] != x {
                let m = choose|m: int|
                    0 <= m < s.drop_first().len() && insert_child_desc(x, s.drop_first())[k - 1]
                        == s.drop_first()[m];
                assert(s.drop_first()[m] == s[m + 1]);
            }
        }
    }
}

/// The stable descending sort really is non-increasing by size.
pub proof fn lemma_sort_children_sorted(s: Seq<CodeStatChildV>)
    ensures
        children_sorted_desc(sort_children_desc(s)),
        sort_children_desc(s).len() == s.len(),
    decreases s.len(),
{
    if s.len() > 0 {
        lemma_sort_children_sorted(s.drop_last());
        lemma_insert_child_sorted(s.last(), sort_children_desc(s.drop_last()));
    }
}

proof fn lemma_insert_stat_at(x: CodeStatV, s: Seq<CodeStatV>, j: int)
    requires
        stats_sorted_desc(s),
        0 <= j <= s.len(),
        forall|k: int| 0 <= k < j ==> s[k].size >= x.size,
        j < s.len() ==> s[j].size < x.size,
    ensures
        insert_stat_desc(x, s) =~= s.take(j) + seq![x] + s.skip(j),
    decreases s.len(),
{
    if s.len() == 0 {
    } else if x.size > s[0].size {
        assert(j == 0);
    } else {
        assert(j >= 1);
        assert(stats_sorted_desc(s.drop_first())) by {
            assert(forall|a: int, b: int|
                0 <= a < b < s.drop_first().len() ==> s.drop_first()[a] == s[a + 1]
                    && s.drop_first()[b] == s[b + 1]);
        }
        lemma_insert_stat_at(x, s.drop_first(), j - 1);
    }
}

proof fn lemma_insert_stat_member(x: CodeStatV, s: Seq<CodeStatV>, k: int)
    requires
        0 <= k < insert_stat_desc(x, s).len(),
    ensures
        insert_stat_desc(x, s)[k] == x || exists|m: int|
            0 <= m < s.len() && insert_stat_desc(x, s)[k] == s[m],
    decreases s.len(),
{
    if s.len() == 0 {
    } else if x.size > s[0].size {
        if k >= 1 {
            assert(insert_stat_desc(x, s)[k] == s[k - 1]);
        }
    } else {
        if k >= 1 {
            lemma_insert_stat_member(x, s.drop_first(), k - 1);
            if insert_stat_desc(x, s.drop_first())[k - 1] != x {
                let m = choose|m: int|
                    0 <= m < s.drop_first().len() && insert_stat_desc(x, s.drop_first())[k - 1]
                        == s.drop_first()[m];
                assert(s.drop_first()[m] == s[m + 1]);
            }
        }
    }
}

proof fn lemma_insert_stat_sorted(x: CodeStatV, s: Seq<CodeStatV>)
    requires
        stats_sorted_desc(s),
    ensures
        stats_sorted_desc(insert_stat_desc(x, s)),
        insert_stat_desc(x, s).len() == s.len() + 1,
    decreases s.len(),
{
    if s.len() == 0 {
    } else if x.size > s[0].size {
    } else {
        assert(stats_sorted_desc(s.drop_first())) by {
            assert(forall|a: int, b: int|
                0 <= a < b < s.drop_first().len() ==> s.drop_first()[a] == s[a + 1]
                    && s.drop_first()[b] == s[b + 1]);
        }
        lemma_insert_stat_sorted(x, s.drop_first());
        let r = insert_stat_desc(x, s);
        let rr = insert_stat_desc(x, s.drop_first());
        assert(r == seq![s[0]] + rr);
        assert forall|a: int, b: int| 0 <= a < b < r.len() implies r[a].size >= r[b].size by {
            if a == 0 {
                if b - 1 < rr.len() {
                    assert(r[b] == rr[b - 1]);
                    lemma_insert_stat_member(x, s.drop_first(), b - 1);
                }
            } else {
                assert(r[a] == rr[a - 1]);
                assert(r[b] == rr[b - 1]);
            }
        }
    }
}

/// The top-level sort really is non-increasing by size.
pub proof fn lemma_sort_stats_sorted(s: Seq<CodeStatV>)
    ensures
        stats_sorted_desc(sort_stats_desc(s)),
        sort_stats_desc(s).len() == s.len(),
    decreases s.len(),
{
    if s.len() > 0 {
        lemma_sort_stats_sorted(s.drop_last());
        lemma_insert_stat_sorted(s.last(), sort_stats_desc(s.drop_last()));
    }
}

/// The per-project row of one author's project record.
pub open spec fn child_stat_v(name: Seq<char>, email: Seq<char>, p: ProjectEntry) -> CodeStatChildV {
    CodeStatChildV {
        key: name + "-"@ + p.name@,
        author: name,
        email: email,
        project: p.name@,
        commits: p.commits,
        additions: p.additions,
        deletions: p.deletions,
        lines: p.lines,
        files: p.files,
        size: kib_of(p.size),
    }
}

/// One author's per-project rows, in record order, before sorting.
pub open spec fn children_of(a: AuthorStats) -> Seq<CodeStatChildV> {
    Seq::new(a.projects@.len(), |i: int| child_stat_v(a.author_name@, a.author_email@, a.projects@[i]))
}

/// One author's total row, children sorted by size descending.
pub open spec fn total_stat_v(a: AuthorStats) -> CodeStatV {
    CodeStatV {
        key: a.author_name@ + "-total"@,
        author: "【"@ + a.author_name@ + "】"@,
        email: a.author_email@,
        project: "【总计】"@,
        commits: a.total_commits,
        additions: a.total_additions,
        deletions: a.total_deletions,
        lines: a.total_lines,
        files: a.total_files,
        size: kib_of(a.total_size),
        children: sort_children_desc(children_of(a)),
    }
}

/// The report's code rows: one total row per author, sorted by size descending.
pub open spec fn code_stats_of(authors: Seq<AuthorStats>) -> Seq<CodeStatV> {
    sort_stats_desc(Seq::new(authors.len(), |i: int| total_stat_v(authors[i])))
}

pub open spec fn commit_stat_v(a: AuthorStats, d: CommitDetail) -> CommitStatV {
    CommitStatV {
        author: a.author_name@,
        email: a.author_email@,
        project: d.project@,
        branch: d.branch@,
        tag: d.tag@,
        committed_date: d.committed_date@,
        message: d.message@,
    }
}

pub open spec fn author_commit_stats(a: AuthorStats) -> Seq<CommitStatV> {
    Seq::new(a.commit_details@.len(), |i: int| commit_stat_v(a, a.commit_details@[i]))
}

/// The flat commit list: each author's details in order, authors in
/// aggregator order.
pub open spec fn commit_stats_of(authors: Seq<AuthorStats>) -> Seq<CommitStatV>
    decreases authors.len(),
{
    if authors.len() == 0 {
        Seq::<CommitStatV>::empty()
    } else {
        commit_stats_of(authors.drop_last()) + author_commit_stats(authors.last())
    }
}

/// What `generate_report` returns for a given aggregator snapshot and
/// failure log.
pub open spec fn report_matches(r: Report, authors: Seq<AuthorStats>, failures: Seq<FailureRecord>) -> bool {
    &&& r.code_stats.deep_view() == code_stats_of(authors)
    &&& r.commit_stats.deep_view() == commit_stats_of(authors)
    &&& match r.failure_stats {
        Some(v) => failures.len() > 0 && v@ == failures,
        None => failures.len() == 0,
    }
}

/// The report is a function of the aggregator snapshot and failure log
/// alone: rebuilding from an unchanged snapshot yields the same rows and
/// the same failure list.
pub proof fn lemma_report_idempotent(
    r1: Report,
    r2: Report,
    authors: Seq<AuthorStats>,
    failures: Seq<FailureRecord>,
)
    requires
        report_matches(r1, authors, failures),
        report_matches(r2, authors, failures),
    ensures
        r1.code_stats.deep_view() == r2.code_stats.deep_view(),
        r1.commit_stats.deep_view() == r2.commit_stats.deep_view(),
        r1.failure_stats is Some <==> r2.failure_stats is Some,
        r1.failure_stats is Some ==> r1.failure_stats->0@ == r2.failure_stats->0@,
{
}

fn sort_children(v: Vec<CodeStatChild>) -> (r: Vec<CodeStatChild>)
    ensures
        r.deep_view() == sort_children_desc(v.deep_view()),
{
    let ghost orig = v.deep_view();
    let mut v = v;
    let mut out: Vec<CodeStatChild> = Vec::new();
    let ghost n = orig.len();
    let initial_len = v.len();
    proof {
        assert(n == initial_len);
        assert(orig.take(0) =~= Seq::<CodeStatChildV>::empty());
    }
    let mut i: usize = 0;
    while v.len() > 0
        invariant
            n <= usize::MAX,
            i + v@.len() == n,
            orig.len() == n,
            forall|k: int| 0 <= k < v@.len() ==> v@[k].deep_view() == orig[i + k],
            out.deep_view() == sort_children_desc(orig.take(i as int)),
            children_sorted_desc(out.deep_view()),
        decreases v@.len(),
    {
        let x = v.remove(0);
        proof {
            assert(x.deep_view() == orig[i as int]);
            lemma_sort_children_sorted(orig.take(i as int));
        }
        let mut j: usize = 0;
        while j < out.len() && out[j].size >= x.size
            invariant
                j <= out.len(),
                forall|k: int| 0 <= k < j ==> out.deep_view()[k].size >= x@.size,
            decreases out.len() - j,
        {
            proof {
                assert(out.deep_view()[j as int].size == out@[j as int].size);
            }
            j += 1;
        }
        proof {
            assert(j < out.len() ==> out.deep_view()[j as int].size < x@.size);
            lemma_insert_child_at(x@, out.deep_view(), j as int);
            lemma_insert_child_sorted(x@, out.deep_view());
        }
        let ghost pre = out.deep_view();
        out.insert(j, x);
        proof {
            assert(out.deep_view() =~= pre.take(j as int) + seq![x@] + pre.skip(j as int));
            assert(orig.take(i + 1).drop_last() =~= orig.take(i as int));
            assert(orig.take(i + 1).last() == orig[i as int]);
            assert(out.deep_view() =~= sort_children_desc(orig.take(i + 1)));
        }
        i += 1;
    }
    proof {
        assert(orig.take(i as int) =~= orig);
    }
    out
}

fn sort_stats(v: Vec<CodeStat>) -> (r: Vec<CodeStat>)
    ensures
        r.deep_view() == sort_stats_desc(v.deep_view()),
{
    let ghost orig = v.deep_view();
    let mut v = v;
    let mut out: Vec<CodeStat> = Vec::new();
    let ghost n = orig.len();
    let initial_len = v.len();
    proof {
        assert(n == initial_len);
        assert(orig.take(0) =~= Seq::<CodeStatV>::empty());
    }
    let mut i: usize = 0;
    while v.len() > 0
        invariant
            n <= usize::MAX,
            i + v@.len() == n,
            orig.len() == n,
            forall|k: int| 0 <= k < v@.len() ==> v@[k].deep_view() == orig[i + k],
            out.deep_view() == sort_stats_desc(orig.take(i as int)),
            stats_sorted_desc(out.deep_view()),
        decreases v@.len(),
    {
        let x = v.remove(0);
        proof {
            assert(x.deep_view() == orig[i as int]);
            lemma_sort_stats_sorted(orig.take(i as int));
        }
        let mut j: usize = 0;
        while j < out.len() && out[j].size >= x.size
            invariant
                j <= out.len(),
                forall|k: int| 0 <= k < j ==> out.deep_view()[k].size >= x@.size,
            decreases out.len() - j,
        {
            proof {
                assert(out.deep_view()[j as int].size == out@[j as int].size);
            }
            j += 1;
        }
        proof {
            assert(j < out.len() ==> out.deep_view()[j as int].size < x@.size);
            lemma_insert_stat_at(x@, out.deep_view(), j as int);
            lemma_insert_stat_sorted(x@, out.deep_view());
        }
        let ghost pre = out.deep_view();
        out.insert(j, x);
        proof {
            assert(out.deep_view() =~= pre.take(j as int) + seq![x@] + pre.skip(j as int));
            assert(orig.take(i + 1).drop_last() =~= orig.take(i as int));
            assert(orig.take(i + 1).last() == orig[i as int]);
            assert(out.deep_view() =~= sort_stats_desc(orig.take(i + 1)));
        }
        i += 1;
    }
    proof {
        assert(orig.take(i as int) =~= orig);
    }
    out
}

/// Builds one author's total row, children sorted by size descending.
fn build_author_stat(a: &AuthorStats) -> (r: CodeStat)
    ensures
        r@ == total_stat_v(*a),
{
    let mut kids: Vec<CodeStatChild> = Vec::new();
    let mut j: usize = 0;
    proof {
        assert(kids.deep_view() =~= children_of(*a).take(0));
    }
    while j < a.projects.len()
        invariant
            j <= a.projects@.len(),
            kids.deep_view() =~= children_of(*a).take(j as int),
        decreases a.projects@.len() - j,
    {
        let p = &a.projects[j];
        let mut key = a.author_name.clone();
        key.append("-");
        key.append(p.name.as_str());
        let kid = CodeStatChild {
            key,
            author: a.author_name.clone(),
            email: a.author_email.clone(),
            project: p.name.clone(),
            commits: p.commits,
            additions: p.additions,
            deletions: p.deletions,
            lines: p.lines,
            files: p.files,
            size: round_kib(p.size),
        };
        proof {
            assert(kid@ == child_stat_v(a.author_name@, a.author_email@, a.projects@[j as int]));
        }
        let ghost prev = kids@;
        let ghost prev_dv = kids.deep_view();
        kids.push(kid);
        proof {
            assert(prev.len() == prev_dv.len());
            assert(prev_dv.len() == j);
            assert(children_of(*a).len() == a.projects@.len());
            assert forall|k: int| 0 <= k <= j implies kids.deep_view()[k] == children_of(*a).take(
                j + 1,
            )[k] by {
                if k < j {
                    assert(kids@[k] == prev[k]);
                    assert(kids.deep_view()[k] == prev_dv[k]);
                } else {
                    assert(kids@[k] == kid);
                }
            }
            assert(kids.deep_view() =~= children_of(*a).take(j + 1));
        }
        j += 1;
    }
    proof {
        assert(children_of(*a).take(a.projects@.len() as int) =~= children_of(*a));
    }
    let children = sort_children(kids);
    let mut key = a.author_name.clone();
    key.append("-total");
    let mut display = String::from_str("【");
    display.append(a.author_name.as_str());
    display.append("】");
    let r = CodeStat {
        key,
        author: display,
        email: a.author_email.clone(),
        project: String::from_str("【总计】"),
        commits: a.total_commits,
        additions: a.total_additions,
        deletions: a.total_deletions,
        lines: a.total_lines,
        files: a.total_files,
        size: round_kib(a.total_size),
        children,
    };
    r
}

/// Transforms the final aggregator state and the failure log into the
/// report: per-author total rows with size-sorted children, the top level
/// sorted by size descending; the flat commit list in aggregator order;
/// and the failure list exactly when it is non-empty.
pub fn generate_report(agg: &Aggregator, failures: &Vec<FailureRecord>) -> (r: Report)
    ensures
        report_matches(r, agg.authors@, failures@),
        stats_sorted_desc(r.code_stats.deep_view()),
        forall|i: int|
            0 <= i < r.code_stats.deep_view().len() ==> children_sorted_desc(
                (#[trigger] r.code_stats.deep_view()[i]).children,
            ),
{
    let ghost authors = agg.authors@;
    let mut rows: Vec<CodeStat> = Vec::new();
    let ghost pre_rows = Seq::new(authors.len(), |i: int| total_stat_v(authors[i]));
    let mut i: usize = 0;
    while i < agg.authors.len()
        invariant
            i <= authors.len(),
            agg.authors@ == authors,
            pre_rows == Seq::new(authors.len(), |k: int| total_stat_v(authors[k])),
            rows.deep_view() =~= pre_rows.take(i as int),
        decreases authors.len() - i,
    {
        let row = build_author_stat(&agg.authors[i]);
        let ghost prev = rows@;
        let ghost prev_dv = rows.deep_view();
        rows.push(row);
        proof {
            assert(prev.len() == prev_dv.len());
            assert(prev_dv.len() == i);
            assert(pre_rows.len() == authors.len());
            assert forall|k: int| 0 <= k <= i implies rows.deep_view()[k] == pre_rows.take(i + 1)[k] by {
                if k < i {
                    assert(rows@[k] == prev[k]);
                    assert(rows.deep_view()[k] == prev_dv[k]);
                } else {
                    assert(rows@[k] == row);
                }
            }
            assert(rows.deep_view() =~= pre_rows.take(i + 1));
        }
        i += 1;
    }
    proof {
        assert(pre_rows.take(authors.len() as int) =~= pre_rows);
    }
    let code_stats = sort_stats(rows);
    proof {
        lemma_sort_stats_sorted(pre_rows);
        assert forall|k: int| 0 <= k < code_stats.deep_view().len() implies children_sorted_desc(
            (#[trigger] code_stats.deep_view()[k]).children,
        ) by {
            lemma_insert_stat_member_sorted(code_stats.deep_view()[k], pre_rows, authors);
        }
    }
    let mut commit_stats: Vec<CommitStat> = Vec::new();
    let mut i: usize = 0;
    proof {
        assert(commit_stats.deep_view() =~= commit_stats_of(authors.take(0)));
    }
    while i < agg.authors.len()
        invariant
            i <= authors.len(),
            agg.authors@ == authors,
            commit_stats.deep_view() =~= commit_stats_of(authors.take(i as int)),
        decreases authors.len() - i,
    {
        let a = &agg.authors[i];
        let mut j: usize = 0;
        while j < a.commit_details.len()
            invariant
                j <= a.commit_details@.len(),
                agg.authors@ == authors,
                i < authors.len(),
                *a == authors[i as int],
                commit_stats.deep_view() =~= commit_stats_of(authors.take(i as int))
                    + author_commit_stats(*a).take(j as int),
            decreases a.commit_details@.len() - j,
        {
            let d = &a.commit_details[j];
            let row = CommitStat {
                author: a.author_name.clone(),
                email: a.author_email.clone(),
                project: d.project.clone(),
                branch: d.branch.clone(),
                tag: d.tag.clone(),
                committed_date: d.committed_date.clone(),
                message: d.message.clone(),
            };
            proof {
                assert(row@ == commit_stat_v(*a, a.commit_details@[j as int]));
            }
            let ghost prev = commit_stats@;
            let ghost prev_dv = commit_stats.deep_view();
            commit_stats.push(row);
            proof {
                let ghost base = commit_stats_of(authors.take(i as int));
                let ghost target = base + author_commit_stats(*a).take(j + 1);
                assert(author_commit_stats(*a).len() == a.commit_details@.len());
                assert(prev_dv == base + author_commit_stats(*a).take(j as int));
                assert(prev.len() == prev_dv.len());
                assert(prev_dv.len() == base.len() + j);
                assert(target.len() == base.len() + j + 1);
                assert forall|k: int| 0 <= k < prev.len() + 1 implies commit_stats.deep_view()[k]
                    == target[k] by {
                    if k < prev.len() {
                        assert(commit_stats@[k] == prev[k]);
                        assert(commit_stats.deep_view()[k] == prev_dv[k]);
                        if k < base.len() {
                            assert(target[k] == base[k]);
                            assert(prev_dv[k] == base[k]);
                        } else {
                            assert(target[k] == author_commit_stats(*a)[k - base.len()]);
                            assert(prev_dv[k] == author_commit_stats(*a)[k - base.len()]);
                        }
                    } else {
                        assert(commit_stats@[k] == row);
                        assert(target[k] == author_commit_stats(*a)[j as int]);
                        assert(author_commit_stats(*a)[j as int] == commit_stat_v(
                            *a,
                            a.commit_details@[j as int],
                        ));
                    }
                }
                assert(commit_stats.deep_view().len() == prev.len() + 1);
                assert(commit_stats.deep_view() =~= target);
            }
            j += 1;
        }
        proof {
            assert(author_commit_stats(*a).take(a.commit_details@.len() as int) =~= author_commit_stats(
                *a,
            ));
            assert(authors.take(i + 1).drop_last() =~= authors.take(i as int));
            assert(authors.take(i + 1).last() == authors[i as int]);
        }
        i += 1;
    }
    proof {
        assert(authors.take(authors.len() as int) =~= authors);
    }
    let failure_stats = if failures.len() > 0 {
        let mut fs: Vec<FailureRecord> = Vec::new();
        let mut k: usize = 0;
        while k < failures.len()
            invariant
                k <= failures@.len(),
                fs@ =~= failures@.take(k as int),
            decreases failures@.len() - k,
        {
            fs.push(failures[k].duplicate());
            proof {
                assert(fs@ =~= failures@.take(k + 1));
            }
            k += 1;
        }
        proof {
            assert(failures@.take(failures@.len() as int) =~= failures@);
        }
        Some(fs)
    } else {
        None
    };
    Report { code_stats, commit_stats, failure_stats }
}

/// Every row of the sorted top level is one of the built rows, whose
/// children were sorted when the row was built.
proof fn lemma_insert_stat_member_sorted(
    x: CodeStatV,
    pre_rows: Seq<CodeStatV>,
    authors: Seq<AuthorStats>,
)
    requires
        pre_rows == Seq::new(authors.len(), |i: int| total_stat_v(authors[i])),
        sort_stats_desc(pre_rows).contains(x),
    ensures
        children_sorted_desc(x.children),
{
    let m = choose|m: int| 0 <= m < sort_stats_desc(pre_rows).len() && sort_stats_desc(pre_rows)[m]
        == x;
    lemma_sort_members(pre_rows, m);
    let k = choose|k: int| 0 <= k < pre_rows.len() && pre_rows[k] == x;
    lemma_sort_children_sorted(children_of(authors[k]));
}

/// Sorting only permutes: every row of the result is a row of the input.
proof fn lemma_sort_members(s: Seq<CodeStatV>, m: int)
    requires
        0 <= m < sort_stats_desc(s).len(),
    ensures
        exists|k: int| 0 <= k < s.len() && s[k] == sort_stats_desc(s)[m],
    decreases s.len(),
{
    if s.len() > 0 {
        lemma_insert_stat_member(s.last(), sort_stats_desc(s.drop_last()), m);
        if insert_stat_desc(s.last(), sort_stats_desc(s.drop_last()))[m] == s.last() {
            assert(s[s.len() - 1] == sort_stats_desc(s)[m]);
        } else {
            let mm = choose|mm: int|
                0 <= mm < sort_stats_desc(s.drop_last()).len() && insert_stat_desc(
                    s.last(),
                    sort_stats_desc(s.drop_last()),
                )[m] == sort_stats_desc(s.drop_last())[mm];
            lemma_sort_members(s.drop_last(), mm);
            let k = choose|k: int|
                0 <= k < s.drop_last().len() && s.drop_last()[k] == sort_stats_desc(
                    s.drop_last(),
                )[mm];
            assert(s[k] == sort_stats_desc(s)[m]);
        }
    }
}

} // verus!
