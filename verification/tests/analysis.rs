use gitlab_stats::batch::batch_ranges;
use gitlab_stats::diff::{analyze_diffs, DiffInfo};
use gitlab_stats::fetch::{
    redact_url, AttemptFailure, AttemptOutcome, FailureKind, FetchCall, FetchStep,
};
use gitlab_stats::pagination::Paginator;
use gitlab_stats::project::{filter_projects, Project};
use gitlab_stats::refs::{resolve_branch, select_refs, BranchInfo, RefInfo};
use gitlab_stats::FailureRecord;
use gitlab_stats::Stats;

fn diff_entry(path: &str, body: Option<&str>) -> DiffInfo {
    DiffInfo {
        old_path: Some(path.to_string()),
        new_path: Some(path.to_string()),
        diff: body.map(|b| b.to_string()),
    }
}

fn strings(v: &[&str]) -> Vec<String> {
    v.iter().map(|s| s.to_string()).collect()
}

#[test]
fn new_stats_are_zero() {
    let s = Stats::new();
    assert_eq!(s.additions, 0);
    assert_eq!(s.deletions, 0);
    assert_eq!(s.lines, 0);
    assert_eq!(s.files, 0);
    assert_eq!(s.size, 0);
}

#[test]
fn counts_additions_and_deletions_skipping_headers() {
    let body = "--- a/src/x.rs\n+++ b/src/x.rs\n@@ -1,2 +1,3 @@\n+first\n+second\n-gone\n context\n";
    let diffs = vec![diff_entry("src/x.rs", Some(body))];
    let s = analyze_diffs(&diffs, &strings(&[".rs"]), &strings(&[]));
    assert_eq!(s.additions, 2);
    assert_eq!(s.deletions, 1);
    assert_eq!(s.lines, 3);
    assert_eq!(s.files, 1);
    assert_eq!(s.size, body.len() as u64);
}

#[test]
fn lines_equal_additions_plus_deletions() {
    let diffs = vec![
        diff_entry("a.rs", Some("+one\n+two\n")),
        diff_entry("b.rs", Some("-gone\n+back\n")),
        diff_entry("c.rs", None),
    ];
    let s = analyze_diffs(&diffs, &strings(&[".rs"]), &strings(&[]));
    assert_eq!(s.lines, s.additions + s.deletions);
    assert_eq!(s.additions, 3);
    assert_eq!(s.deletions, 1);
    assert_eq!(s.files, 3);
}

#[test]
fn extension_filter_excludes_readme() {
    let diffs = vec![diff_entry("README.md", Some("+added\n"))];
    let s = analyze_diffs(&diffs, &strings(&[".rs", ".go"]), &strings(&[]));
    assert_eq!(s.files, 0);
    assert_eq!(s.lines, 0);
    assert_eq!(s.size, 0);
}

#[test]
fn ignored_path_excludes_allowed_extension() {
    let diffs = vec![diff_entry("vendor/lib.rs", Some("+added\n"))];
    let s = analyze_diffs(&diffs, &strings(&[".rs"]), &strings(&["vendor"]));
    assert_eq!(s.files, 0);
    assert_eq!(s.lines, 0);
    assert_eq!(s.size, 0);
}

#[test]
fn path_without_dot_gets_whole_name_extension() {
    let diffs = vec![diff_entry("Makefile", Some("+x\n"))];
    let s = analyze_diffs(&diffs, &strings(&[".rs"]), &strings(&[]));
    assert_eq!(s.files, 0);
    let s2 = analyze_diffs(&diffs, &strings(&[".Makefile"]), &strings(&[]));
    assert_eq!(s2.files, 1);
    assert_eq!(s2.additions, 1);
}

#[test]
fn missing_new_path_falls_back_to_old_path() {
    let diffs = vec![DiffInfo {
        old_path: Some("gone.rs".to_string()),
        new_path: None,
        diff: Some("-a\n-b\n".to_string()),
    }];
    let s = analyze_diffs(&diffs, &strings(&[".rs"]), &strings(&[]));
    assert_eq!(s.files, 1);
    assert_eq!(s.deletions, 2);
    assert_eq!(s.additions, 0);
}

#[test]
fn empty_diff_collection_yields_zero() {
    let diffs: Vec<DiffInfo> = Vec::new();
    let s = analyze_diffs(&diffs, &strings(&[".rs"]), &strings(&[]));
    assert_eq!(s.files, 0);
    assert_eq!(s.lines, 0);
}

#[test]
fn merge_branch_extraction_overrides_api_branch() {
    let r = resolve_branch("Merge branch 'release/1.2'", "main".to_string());
    assert_eq!(r, "release/1.2");
}

#[test]
fn merge_phrase_without_quotes_keeps_api_branch() {
    let r = resolve_branch("Merge branch release into main", "develop".to_string());
    assert_eq!(r, "develop");
}

#[test]
fn ordinary_message_keeps_api_branch() {
    let r = resolve_branch("fix: handle empty pages", "main".to_string());
    assert_eq!(r, "main");
}

#[test]
fn select_refs_takes_first_of_each_kind() {
    let refs = vec![
        RefInfo { ref_type: "tag".to_string(), name: "v1.0".to_string() },
        RefInfo { ref_type: "branch".to_string(), name: "main".to_string() },
        RefInfo { ref_type: "branch".to_string(), name: "develop".to_string() },
        RefInfo { ref_type: "tag".to_string(), name: "v1.1".to_string() },
    ];
    let BranchInfo { branches, tags } = select_refs(&refs);
    assert_eq!(branches, "main");
    assert_eq!(tags, "v1.0");
}

#[test]
fn select_refs_defaults_to_unknown() {
    let refs: Vec<RefInfo> = Vec::new();
    let b = select_refs(&refs);
    assert_eq!(b.branches, "unknown");
    assert_eq!(b.tags, "unknown");
}

#[test]
fn pagination_collects_until_empty_page() {
    let mut walk: Paginator<String> = Paginator::new();
    assert_eq!(walk.page, 1);
    assert!(!walk.absorb_page(strings(&["A", "B"])));
    assert_eq!(walk.page, 2);
    assert!(!walk.absorb_page(strings(&["C"])));
    assert_eq!(walk.page, 3);
    assert!(walk.absorb_page(Vec::new()));
    assert_eq!(walk.requests, 3);
    assert_eq!(walk.into_items(), strings(&["A", "B", "C"]));
}

#[test]
fn retry_exhaustion_makes_exactly_retries_attempts() {
    let mut log: Vec<FailureRecord> = Vec::new();
    let mut call = FetchCall::with_policy(
        "https://gitlab.example.com/api/v4/projects/7/repository/commits".to_string(),
        "fetch commit list".to_string(),
        Some("proj".to_string()),
        Some("a@example.com".to_string()),
        5000,
        300,
        3,
    );
    let mut attempts = 0u32;
    loop {
        attempts += 1;
        let failure = AttemptFailure {
            kind: FailureKind::Transport,
            message: "connection reset".to_string(),
        };
        match call.on_outcome(AttemptOutcome::Failed(failure), &mut log) {
            FetchStep::RetryAfterDelay { delay_ms } => {
                assert_eq!(delay_ms, 300);
                assert!(log.is_empty());
            }
            FetchStep::GiveUp => break,
            FetchStep::Done => panic!("a failing transport cannot succeed"),
        }
    }
    assert_eq!(attempts, 3);
    assert_eq!(log.len(), 1);
    assert_eq!(log[0].url, "v4/projects/7/repository/commits");
    assert_eq!(log[0].operation, "fetch commit list");
    assert_eq!(log[0].project_name.as_deref(), Some("proj"));
    assert_eq!(log[0].author.as_deref(), Some("a@example.com"));
    assert_eq!(log[0].error, "connection reset");
}

#[test]
fn success_ends_the_call_without_a_record() {
    let mut log: Vec<FailureRecord> = Vec::new();
    let mut call = FetchCall::new(
        "https://gitlab.example.com/api/v4/groups/1/projects".to_string(),
        "fetch project list".to_string(),
        None,
        None,
    );
    match call.on_outcome(AttemptOutcome::Success, &mut log) {
        FetchStep::Done => {}
        _ => panic!("a successful attempt must end the call"),
    }
    assert!(log.is_empty());
    assert_eq!(call.attempts, 1);
}

#[test]
fn redact_url_strips_prefix_before_marker() {
    assert_eq!(redact_url("https://h.example/api/v4/projects/1"), "v4/projects/1");
    assert_eq!(redact_url("no marker here"), "no marker here");
}

#[test]
fn batch_ranges_cover_the_list() {
    assert_eq!(batch_ranges(5, 2), vec![(0, 2), (2, 4), (4, 5)]);
    assert_eq!(batch_ranges(4, 2), vec![(0, 2), (2, 4)]);
    assert_eq!(batch_ranges(0, 3), Vec::<(usize, usize)>::new());
    assert_eq!(batch_ranges(2, 10), vec![(0, 2)]);
}

#[test]
fn filter_projects_drops_excluded_names() {
    let projects = vec![
        Project { id: 1, name: "alpha".to_string() },
        Project { id: 2, name: "beta".to_string() },
        Project { id: 3, name: "gamma".to_string() },
    ];
    let kept = filter_projects(projects, &strings(&["beta"]));
    assert_eq!(kept.len(), 2);
    assert_eq!(kept[0].name, "alpha");
    assert_eq!(kept[1].name, "gamma");
}

#[test]
fn default_policy_gives_up_after_twenty_attempts() {
    let mut log: Vec<FailureRecord> = Vec::new();
    let mut call = FetchCall::new(
        "https://gitlab.example.com/api/v4/projects".to_string(),
        "fetch project list".to_string(),
        None,
        None,
    );
    let mut attempts = 0u32;
    loop {
        attempts += 1;
        let failure = AttemptFailure {
            kind: FailureKind::Timeout,
            message: "请求超时".to_string(),
        };
        match call.on_outcome(AttemptOutcome::Failed(failure), &mut log) {
            FetchStep::RetryAfterDelay { delay_ms } => assert_eq!(delay_ms, 300),
            FetchStep::GiveUp => break,
            FetchStep::Done => panic!("a failing transport cannot succeed"),
        }
    }
    assert_eq!(attempts, 20);
    assert_eq!(log.len(), 1);
}

#[test]
fn body_less_entries_count_files_but_no_lines() {
    let diffs = vec![diff_entry("big.rs", None), diff_entry("bin.rs", None)];
    let s = analyze_diffs(&diffs, &strings(&[".rs"]), &strings(&[]));
    assert_eq!(s.files, 2);
    assert_eq!(s.lines, 0);
    assert_eq!(s.size, 0);
}

#[test]
fn entry_without_any_path_is_filtered_by_bare_dot() {
    let diffs = vec![DiffInfo { old_path: None, new_path: None, diff: Some("+x\n".to_string()) }];
    let s = analyze_diffs(&diffs, &strings(&[".rs"]), &strings(&[]));
    assert_eq!(s.files, 0);
    let s2 = analyze_diffs(&diffs, &strings(&["."]), &strings(&[]));
    assert_eq!(s2.files, 1);
}

#[test]
fn quadruple_plus_line_is_not_counted() {
    let diffs = vec![diff_entry("a.rs", Some("++++x\n+real\n----y\n-gone\n"))];
    let s = analyze_diffs(&diffs, &strings(&[".rs"]), &strings(&[]));
    assert_eq!(s.additions, 1);
    assert_eq!(s.deletions, 1);
}
