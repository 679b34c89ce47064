//! Rolls completed commits up into per-author, per-project statistics.
//!
//! An author's running totals always equal the componentwise sums over the
//! author's project records; recording a commit preserves that invariant.

use vstd::prelude::*;

use crate::text::str_eq;
use crate::Stats;

verus! {

/// The statistics an author accumulated in one project.
pub struct ProjectEntry {
    pub name: String,
    pub commits: u32,
    pub additions: u32,
    pub deletions: u32,
    pub lines: u32,
    pub files: u32,
    pub size: u64,
}

/// One processed commit, in the order commits finished.
pub struct CommitDetail {
    pub project: String,
    pub branch: String,
    pub tag: String,
    pub message: String,
    pub committed_date: String,
}

/// Everything recorded for one author.
pub struct AuthorStats {
    pub author_name: String,
    pub author_email: String,
    pub projects: Vec<ProjectEntry>,
    pub total_commits: u32,
    pub total_additions: u32,
    pub total_deletions: u32,
    pub total_lines: u32,
    pub total_files: u32,
    pub total_size: u64,
    pub commit_details: Vec<CommitDetail>,
}

/// The mathematical sums over a sequence of project records.
pub struct ProjectTotals {
    pub commits: int,
    pub additions: int,
    pub deletions: int,
    pub lines: int,
    pub files: int,
    pub size: int,
}

pub open spec fn totals_plus(t: ProjectTotals, p: ProjectEntry) -> ProjectTotals {
    ProjectTotals {
        commits: t.commits + p.commits,
        additions: t.additions + p.additions,
        deletions: t.deletions + p.deletions,
        lines: t.lines + p.lines,
        files: t.files + p.files,
        size: t.size + p.size,
    }
}

pub open spec fn sum_projects(ps: Seq<ProjectEntry>) -> ProjectTotals
    decreases ps.len(),
{
    if ps.len() == 0 {
        ProjectTotals { commits: 0, additions: 0, deletions: 0, lines: 0, files: 0, size: 0 }
    } else {
        totals_plus(sum_projects(ps.drop_last()), ps.last())
    }
}

/// An author's totals are exactly the sums over the author's projects,
/// and the project names are pairwise distinct.
pub open spec fn author_wf(a: AuthorStats) -> bool {
    &&& a.total_commits == sum_projects(a.projects@).commits
    &&& a.total_additions == sum_projects(a.projects@).additions
    &&& a.total_deletions == sum_projects(a.projects@).deletions
    &&& a.total_lines == sum_projects(a.projects@).lines
    &&& a.total_files == sum_projects(a.projects@).files
    &&& a.total_size == sum_projects(a.projects@).size
    &&& forall|i: int, j: int|
        0 <= i < j < a.projects@.len() ==> a.projects@[i].name@ != a.projects@[j].name@
}

proof fn lemma_sum_nonneg(ps: Seq<ProjectEntry>)
    ensures
        sum_projects(ps).commits >= 0,
        sum_projects(ps).additions >= 0,
        sum_projects(ps).deletions >= 0,
        sum_projects(ps).lines >= 0,
        sum_projects(ps).files >= 0,
        sum_projects(ps).size >= 0,
    decreases ps.len(),
{
    if ps.len() > 0 {
        lemma_sum_nonneg(ps.drop_last());
    }
}

/// No single project record exceeds the sums.
proof fn lemma_sum_element(ps: Seq<ProjectEntry>, j: int)
    requires
        0 <= j < ps.len(),
    ensures
        ps[j].commits <= sum_projects(ps).commits,
        ps[j].additions <= sum_projects(ps).additions,
        ps[j].deletions <= sum_projects(ps).deletions,
        ps[j].lines <= sum_projects(ps).lines,
        ps[j].files <= sum_projects(ps).files,
        ps[j].size <= sum_projects(ps).size,
    decreases ps.len(),
{
    lemma_sum_nonneg(ps.drop_last());
    if j < ps.len() - 1 {
        lemma_sum_element(ps.drop_last(), j);
        assert(ps.drop_last()[j] == ps[j]);
        assert(ps.last().commits >= 0);
    }
}

proof fn lemma_sum_update(ps: Seq<ProjectEntry>, j: int, e: ProjectEntry)
    requires
        0 <= j < ps.len(),
    ensures
        sum_projects(ps.update(j, e)).commits == sum_projects(ps).commits - ps[j].commits + e.commits,
        sum_projects(ps.update(j, e)).additions == sum_projects(ps).additions - ps[j].additions
            + e.additions,
        sum_projects(ps.update(j, e)).deletions == sum_projects(ps).deletions - ps[j].deletions
            + e.deletions,
        sum_projects(ps.update(j, e)).lines == sum_projects(ps).lines - ps[j].lines + e.lines,
        sum_projects(ps.update(j, e)).files == sum_projects(ps).files - ps[j].files + e.files,
        sum_projects(ps.update(j, e)).size == sum_projects(ps).size - ps[j].size + e.size,
    decreases ps.len(),
{
    if j == ps.len() - 1 {
        assert(ps.update(j, e).drop_last() =~= ps.drop_last());
        assert(ps.update(j, e).last() == e);
    } else {
        assert(ps.update(j, e).drop_last() =~= ps.drop_last().update(j, e));
        assert(ps.update(j, e).last() == ps.last());
        lemma_sum_update(ps.drop_last(), j, e);
        assert(ps.drop_last()[j] == ps[j]);
    }
}

proof fn lemma_sum_push(ps: Seq<ProjectEntry>, e: ProjectEntry)
    ensures
        sum_projects(ps.push(e)) == totals_plus(sum_projects(ps), e),
{
    assert(ps.push(e).drop_last() =~= ps);
    assert(ps.push(e).last() == e);
}

/// A project record after absorbing one more commit's statistics.
pub open spec fn bumped_project(p: ProjectEntry, s: Stats) -> ProjectEntry {
    ProjectEntry {
        name: p.name,
        commits: (p.commits + 1) as u32,
        additions: (p.additions + s.additions) as u32,
        deletions: (p.deletions + s.deletions) as u32,
        lines: (p.lines + s.lines) as u32,
        files: (p.files + s.files) as u32,
        size: (p.size + s.size) as u64,
    }
}

/// The project record a first commit creates.
pub open spec fn fresh_project(name: String, s: Stats) -> ProjectEntry {
    ProjectEntry {
        name: name,
        commits: 1,
        additions: s.additions,
        deletions: s.deletions,
        lines: s.lines,
        files: s.files,
        size: s.size,
    }
}

/// `ps2` is `ps` with one commit's statistics folded in under `name`.
pub open spec fn projects_upserted(
    ps: Seq<ProjectEntry>,
    ps2: Seq<ProjectEntry>,
    name: String,
    s: Stats,
) -> bool {
    if exists|j: int| 0 <= j < ps.len() && ps[j].name@ == name@ {
        forall|j: int|
            0 <= j < ps.len() && ps[j].name@ == name@ ==> ps2 == ps.update(
                j,
                bumped_project(ps[j], s),
            )
    } else {
        ps2 == ps.push(fresh_project(name, s))
    }
}

/// `a2` is `a` after one commit under `project` with statistic `s` and
/// detail `d`: every total grows by the commit's contribution and the
/// detail is appended.
pub open spec fn author_bumped(
    a: AuthorStats,
    a2: AuthorStats,
    project: String,
    s: Stats,
    d: CommitDetail,
) -> bool {
    &&& a2.author_name == a.author_name
    &&& a2.author_email == a.author_email
    &&& projects_upserted(a.projects@, a2.projects@, project, s)
    &&& a2.total_commits == a.total_commits + 1
    &&& a2.total_additions == a.total_additions + s.additions
    &&& a2.total_deletions == a.total_deletions + s.deletions
    &&& a2.total_lines == a.total_lines + s.lines
    &&& a2.total_files == a.total_files + s.files
    &&& a2.total_size == a.total_size + s.size
    &&& a2.commit_details@ == a.commit_details@.push(d)
}

/// The record a first commit creates for an author.
pub open spec fn fresh_author(
    a: AuthorStats,
    name: String,
    email: String,
    project: String,
    s: Stats,
    d: CommitDetail,
) -> bool {
    &&& a.author_name == name
    &&& a.author_email == email
    &&& a.projects@ == seq![fresh_project(project, s)]
    &&& a.total_commits == 1
    &&& a.total_additions == s.additions
    &&& a.total_deletions == s.deletions
    &&& a.total_lines == s.lines
    &&& a.total_files == s.files
    &&& a.total_size == s.size
    &&& a.commit_details@ == seq![d]
}

/// The author map and the order its records were created in.
pub struct Aggregator {
    pub authors: Vec<AuthorStats>,
}

impl Aggregator {
    /// Every author record is well formed and author names are pairwise
    /// distinct, so each display name owns exactly one record.
    pub open spec fn wf(self) -> bool {
        &&& forall|i: int| 0 <= i < self.authors@.len() ==> author_wf(#[trigger] self.authors@[i])
        &&& forall|i: int, j: int|
            0 <= i < j < self.authors@.len() ==> self.authors@[i].author_name@
                != self.authors@[j].author_name@
    }

    pub open spec fn has_author(self, name: Seq<char>) -> bool {
        exists|i: int| 0 <= i < self.authors@.len() && self.authors@[i].author_name@ == name
    }

    pub fn new() -> (r: Aggregator)
        ensures
            r.wf(),
            r.authors@.len() == 0,
    {
        Aggregator { authors: Vec::new() }
    }
}

/// The author's totals can absorb `s` without overflowing.
pub open spec fn author_fits(a: AuthorStats, s: Stats) -> bool {
    &&& a.total_commits + 1 <= u32::MAX
    &&& a.total_additions + s.additions <= u32::MAX
    &&& a.total_deletions + s.deletions <= u32::MAX
    &&& a.total_lines + s.lines <= u32::MAX
    &&& a.total_files + s.files <= u32::MAX
    &&& a.total_size + s.size <= u64::MAX
}

/// Whichever author record `name` selects can absorb `s`.
pub open spec fn record_fits(pre: Aggregator, name: Seq<char>, s: Stats) -> bool {
    forall|i: int|
        0 <= i < pre.authors@.len() && (#[trigger] pre.authors@[i]).author_name@ == name
            ==> author_fits(pre.authors@[i], s)
}

/// How `post` relates to `pre` after recording one commit: the record of
/// `author_name` (created if absent, with `author_email` as first-seen
/// email) absorbs `s` under `project`, gains the commit detail, and no
/// other record changes.
pub open spec fn recorded(
    pre: Aggregator,
    post: Aggregator,
    author_name: String,
    author_email: String,
    project: String,
    s: Stats,
    branch: String,
    tag: String,
    message: String,
    committed_date: String,
) -> bool {
    let d = CommitDetail { project: project, branch, tag, message, committed_date };
    if pre.has_author(author_name@) {
        &&& post.authors@.len() == pre.authors@.len()
        &&& forall|i: int|
            0 <= i < pre.authors@.len() && (#[trigger] pre.authors@[i]).author_name@
                != author_name@ ==> post.authors@[i] == pre.authors@[i]
        &&& forall|i: int|
            0 <= i < pre.authors@.len() && (#[trigger] pre.authors@[i]).author_name@
                == author_name@ ==> author_bumped(pre.authors@[i], post.authors@[i], project, s, d)
    } else {
        &&& post.authors@.len() == pre.authors@.len() + 1
        &&& forall|i: int| 0 <= i < pre.authors@.len() ==> post.authors@[i] == pre.authors@[i]
        &&& fresh_author(post.authors@.last(), author_name, author_email, project, s, d)
    }
}

fn find_author(authors: &Vec<AuthorStats>, name: &str) -> (r: Option<usize>)
    ensures
        match r {
            Some(i) => i < authors@.len() && authors@[i as int].author_name@ == name@,
            None => forall|i: int|
                0 <= i < authors@.len() ==> (#[trigger] authors@[i]).author_name@ != name@,
        },
{
    let mut i: usize = 0;
    while i < authors.len()
        invariant
            i <= authors@.len(),
            forall|k: int| 0 <= k < i ==> (#[trigger] authors@[k]).author_name@ != name@,
        decreases authors@.len() - i,
    {
        if str_eq(authors[i].author_name.as_str(), name) {
            return Some(i);
        }
        i += 1;
    }
    None
}

fn find_project(projects: &Vec<ProjectEntry>, name: &str) -> (r: Option<usize>)
    ensures
        match r {
            Some(j) => j < projects@.len() && projects@[j as int].name@ == name@,
            None => forall|j: int|
                0 <= j < projects@.len() ==> (#[trigger] projects@[j]).name@ != name@,
        },
{
    let mut j: usize = 0;
    while j < projects.len()
        invariant
            j <= projects@.len(),
            forall|k: int| 0 <= k < j ==> (#[trigger] projects@[k]).name@ != name@,
        decreases projects@.len() - j,
    {
        if str_eq(projects[j].name.as_str(), name) {
            return Some(j);
        }
        j += 1;
    }
    None
}

impl Aggregator {
    /// Records one completed commit: finds or creates the author's record
    /// (first-seen email wins), finds or creates the project record inside
    /// it, adds the statistic into both, and appends the commit detail.
    pub fn record(
        &mut self,
        author_name: &String,
        author_email: &String,
        project_name: &String,
        stats: &Stats,
        branch: String,
        tag: String,
        message: String,
        committed_date: String,
    )
        requires
            old(self).wf(),
            record_fits(*old(self), author_name@, *stats),
        ensures
            final(self).wf(),
            recorded(
                *old(self),
                *final(self),
                *author_name,
                *author_email,
                *project_name,
                *stats,
                branch,
                tag,
                message,
                committed_date,
            ),
    {
        let detail = CommitDetail {
            project: project_name.clone(),
            branch,
            tag,
            message,
            committed_date,
        };
        match find_author(&self.authors, author_name.as_str()) {
            Some(i) => {
                let ghost pre = *self;
                let ghost a0 = self.authors@[i as int];
                let mut a = self.authors.remove(i);
                proof {
                    lemma_sum_nonneg(a.projects@);
                }
                match find_project(&a.projects, project_name.as_str()) {
                    Some(j) => {
                        let ghost p0 = a.projects@[j as int];
                        proof {
                            lemma_sum_element(a.projects@, j as int);
                        }
                        let mut p = a.projects.remove(j);
                        p.commits = p.commits + 1;
                        p.additions = p.additions + stats.additions;
                        p.deletions = p.deletions + stats.deletions;
                        p.lines = p.lines + stats.lines;
                        p.files = p.files + stats.files;
                        p.size = p.size + stats.size;
                        a.projects.insert(j, p);
                        proof {
                            assert(a.projects@ =~= a0.projects@.update(
                                j as int,
                                bumped_project(p0, *stats),
                            ));
                            lemma_sum_update(a0.projects@, j as int, bumped_project(p0, *stats));
                        }
                    },
                    None => {
                        let p = ProjectEntry {
                            name: project_name.clone(),
                            commits: 1,
                            additions: stats.additions,
                            deletions: stats.deletions,
                            lines: stats.lines,
                            files: stats.files,
                            size: stats.size,
                        };
                        a.projects.push(p);
                        proof {
                            lemma_sum_push(a0.projects@, fresh_project(*project_name, *stats));
                            assert(a.projects@ == a0.projects@.push(
                                fresh_project(*project_name, *stats),
                            ));
                        }
                    },
                }
                a.total_commits = a.total_commits + 1;
                a.total_additions = a.total_additions + stats.additions;
                a.total_deletions = a.total_deletions + stats.deletions;
                a.total_lines = a.total_lines + stats.lines;
                a.total_files = a.total_files + stats.files;
                a.total_size = a.total_size + stats.size;
                a.commit_details.push(detail);
                self.authors.insert(i, a);
                proof {
                    assert(self.authors@ =~= pre.authors@.update(i as int, self.authors@[i as int]));
                    assert(author_bumped(
                        a0,
                        self.authors@[i as int],
                        *project_name,
                        *stats,
                        CommitDetail {
                            project: *project_name,
                            branch,
                            tag,
                            message,
                            committed_date,
                        },
                    ));
                }
            },
            None => {
                let mut projects: Vec<ProjectEntry> = Vec::new();
                projects.push(ProjectEntry {
                    name: project_name.clone(),
                    commits: 1,
                    additions: stats.additions,
                    deletions: stats.deletions,
                    lines: stats.lines,
                    files: stats.files,
                    size: stats.size,
                });
                let mut commit_details: Vec<CommitDetail> = Vec::new();
                commit_details.push(detail);
                let a = AuthorStats {
                    author_name: author_name.clone(),
                    author_email: author_email.clone(),
                    projects,
                    total_commits: 1,
                    total_additions: stats.additions,
                    total_deletions: stats.deletions,
                    total_lines: stats.lines,
                    total_files: stats.files,
                    total_size: stats.size,
                    commit_details,
                };
                proof {
                    lemma_sum_push(Seq::<ProjectEntry>::empty(), fresh_project(*project_name, *stats));
                    assert(a.projects@ =~= seq![fresh_project(*project_name, *stats)]);
                    assert(a.commit_details@ =~= seq![
                        CommitDetail {
                            project: *project_name,
                            branch,
                            tag,
                            message,
                            committed_date,
                        },
                    ]);
                }
                self.authors.push(a);
            },
        }
    }
}

} // verus!
