//! Verified core of a GitLab contribution analyzer.
//!
//! The library models the parts of the pipeline that decide and compute:
//! diff-based line accounting, per-author aggregation, report shaping,
//! and the retry / pagination / batching state machines. The hosting
//! code performs the HTTP calls and feeds their outcomes back in.

pub mod aggregate;
pub mod batch;
pub mod diff;
pub mod fetch;
pub mod pagination;
pub mod project;
pub mod refs;
pub mod report;
pub mod text;

use vstd::prelude::*;

verus! {

/// What a run analyzes: where the API lives, which group and date window,
/// and the filters and concurrency bound every stage honors.
pub struct Config {
    pub gitlab_api: String,
    pub gitlab_token: String,
    pub group_id: String,
    pub start_date: String,
    pub end_date: String,
    pub projects_num: u32,
    pub excluded_projects: Vec<String>,
    pub valid_extensions: Vec<String>,
    pub max_concurrent_requests: u32,
    pub ignored_paths: Vec<String>,
}

/// One permanently recorded fetch failure: the redacted URL, the operation
/// that was underway, its optional project/author context, and the error.
pub struct FailureRecord {
    pub url: String,
    pub project_name: Option<String>,
    pub author: Option<String>,
    pub operation: String,
    pub error: String,
}

impl FailureRecord {
    /// A field-for-field copy.
    pub fn duplicate(&self) -> (r: FailureRecord)
        ensures
            r == *self,
    {
        FailureRecord {
            url: self.url.clone(),
            project_name: match &self.project_name {
                Some(p) => Some(p.clone()),
                None => None,
            },
            author: match &self.author {
                Some(a) => Some(a.clone()),
                None => None,
            },
            operation: self.operation.clone(),
            error: self.error.clone(),
        }
    }
}

/// Line/file/byte statistics accumulated from the entries of one commit diff.
pub struct Stats {
    pub additions: u32,
    pub deletions: u32,
    pub lines: u32,
    pub files: u32,
    pub size: u64,
}

/// `lines` is always the sum of `additions` and `deletions`.
pub open spec fn stats_wf(s: Stats) -> bool {
    s.lines == s.additions + s.deletions
}

impl Stats {
    /// The all-zero statistic, the starting point of every accumulation.
    pub fn new() -> (r: Stats)
        ensures
            r.additions == 0,
            r.deletions == 0,
            r.lines == 0,
            r.files == 0,
            r.size == 0,
            stats_wf(r),
    {
        Stats { additions: 0, deletions: 0, lines: 0, files: 0, size: 0 }
    }
}

} // verus!
