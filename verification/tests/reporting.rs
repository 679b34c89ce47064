use gitlab_stats::aggregate::Aggregator;
use gitlab_stats::report::{generate_report, round_kib, CodeStat, Report};
use gitlab_stats::FailureRecord;
use gitlab_stats::Stats;

fn stats(additions: u32, deletions: u32, files: u32, size: u64) -> Stats {
    Stats { additions, deletions, lines: additions + deletions, files, size }
}

fn record(agg: &mut Aggregator, author: &str, email: &str, project: &str, s: &Stats) {
    agg.record(
        &author.to_string(),
        &email.to_string(),
        &project.to_string(),
        s,
        "main".to_string(),
        "unknown".to_string(),
        "msg".to_string(),
        "2024-01-02T03:04:05Z".to_string(),
    );
}

fn same_code_stat(a: &CodeStat, b: &CodeStat) -> bool {
    a.key == b.key && a.author == b.author && a.email == b.email && a.project == b.project
        && a.commits == b.commits && a.additions == b.additions && a.deletions == b.deletions
        && a.lines == b.lines && a.files == b.files && a.size == b.size
        && a.children.len() == b.children.len()
        && a.children.iter().zip(b.children.iter()).all(|(x, y)| {
            x.key == y.key && x.author == y.author && x.email == y.email && x.project == y.project
                && x.commits == y.commits && x.additions == y.additions
                && x.deletions == y.deletions && x.lines == y.lines && x.files == y.files
                && x.size == y.size
        })
}

fn same_report(a: &Report, b: &Report) -> bool {
    a.code_stats.len() == b.code_stats.len()
        && a.code_stats.iter().zip(b.code_stats.iter()).all(|(x, y)| same_code_stat(x, y))
        && a.commit_stats.len() == b.commit_stats.len()
        && a.commit_stats.iter().zip(b.commit_stats.iter()).all(|(x, y)| {
            x.author == y.author && x.email == y.email && x.project == y.project
                && x.branch == y.branch && x.tag == y.tag
                && x.committed_date == y.committed_date && x.message == y.message
        })
        && match (&a.failure_stats, &b.failure_stats) {
            (None, None) => true,
            (Some(fa), Some(fb)) => {
                fa.len() == fb.len() && fa.iter().zip(fb.iter()).all(|(x, y)| {
                    x.url == y.url && x.project_name == y.project_name && x.author == y.author
                        && x.operation == y.operation && x.error == y.error
                })
            }
            _ => false,
        }
}

#[test]
fn kib_rounding_is_nearest_half_up() {
    assert_eq!(round_kib(1536), 2);
    assert_eq!(round_kib(1535), 1);
    assert_eq!(round_kib(512), 1);
    assert_eq!(round_kib(511), 0);
    assert_eq!(round_kib(0), 0);
    assert_eq!(round_kib(2048), 2);
}

#[test]
fn author_totals_equal_project_sums() {
    let mut agg = Aggregator::new();
    record(&mut agg, "Alice", "alice@example.com", "alpha", &stats(10, 5, 2, 2048));
    record(&mut agg, "Alice", "alice@example.com", "beta", &stats(1, 2, 1, 512));
    record(&mut agg, "Alice", "alice@example.com", "alpha", &stats(3, 0, 1, 1024));
    assert_eq!(agg.authors.len(), 1);
    let a = &agg.authors[0];
    assert_eq!(a.projects.len(), 2);
    let sum_adds: u32 = a.projects.iter().map(|p| p.additions).sum();
    let sum_dels: u32 = a.projects.iter().map(|p| p.deletions).sum();
    let sum_lines: u32 = a.projects.iter().map(|p| p.lines).sum();
    let sum_files: u32 = a.projects.iter().map(|p| p.files).sum();
    let sum_size: u64 = a.projects.iter().map(|p| p.size).sum();
    let sum_commits: u32 = a.projects.iter().map(|p| p.commits).sum();
    assert_eq!(a.total_additions, sum_adds);
    assert_eq!(a.total_deletions, sum_dels);
    assert_eq!(a.total_lines, sum_lines);
    assert_eq!(a.total_files, sum_files);
    assert_eq!(a.total_size, sum_size);
    assert_eq!(a.total_commits, sum_commits);
    assert_eq!(a.commit_details.len(), 3);
}

#[test]
fn first_seen_email_wins() {
    let mut agg = Aggregator::new();
    record(&mut agg, "Alice", "first@example.com", "alpha", &stats(1, 0, 1, 10));
    record(&mut agg, "Alice", "second@example.com", "alpha", &stats(1, 0, 1, 10));
    assert_eq!(agg.authors.len(), 1);
    assert_eq!(agg.authors[0].author_email, "first@example.com");
}

#[test]
fn report_rows_are_sorted_by_size_descending() {
    let mut agg = Aggregator::new();
    record(&mut agg, "Small", "s@example.com", "alpha", &stats(1, 0, 1, 1024));
    record(&mut agg, "Big", "b@example.com", "alpha", &stats(1, 0, 1, 8192));
    record(&mut agg, "Big", "b@example.com", "beta", &stats(1, 0, 1, 4096));
    let report = generate_report(&agg, &Vec::new());
    assert_eq!(report.code_stats.len(), 2);
    assert_eq!(report.code_stats[0].key, "Big-total");
    assert_eq!(report.code_stats[0].size, 12);
    assert_eq!(report.code_stats[1].key, "Small-total");
    assert_eq!(report.code_stats[1].size, 1);
    for w in report.code_stats.windows(2) {
        assert!(w[0].size >= w[1].size);
    }
    let kids = &report.code_stats[0].children;
    assert_eq!(kids.len(), 2);
    assert_eq!(kids[0].project, "alpha");
    assert_eq!(kids[0].size, 8);
    assert_eq!(kids[1].project, "beta");
    assert_eq!(kids[1].size, 4);
    assert_eq!(report.commit_stats.len(), 3);
    assert!(report.failure_stats.is_none());
}

#[test]
fn report_decorates_total_rows() {
    let mut agg = Aggregator::new();
    record(&mut agg, "Alice", "alice@example.com", "alpha", &stats(2, 1, 1, 1536));
    let report = generate_report(&agg, &Vec::new());
    let top = &report.code_stats[0];
    assert_eq!(top.key, "Alice-total");
    assert_eq!(top.author, "【Alice】");
    assert_eq!(top.project, "【总计】");
    assert_eq!(top.size, 2);
    assert_eq!(top.children[0].key, "Alice-alpha");
    assert_eq!(top.children[0].author, "Alice");
}

#[test]
fn rebuilding_from_unchanged_state_gives_identical_report() {
    let mut agg = Aggregator::new();
    record(&mut agg, "Alice", "alice@example.com", "alpha", &stats(10, 5, 2, 2048));
    record(&mut agg, "Bob", "bob@example.com", "beta", &stats(7, 7, 3, 2048));
    record(&mut agg, "Alice", "alice@example.com", "beta", &stats(0, 1, 1, 100));
    let failures = vec![FailureRecord {
        url: "v4/projects/9/repository/commits/abc/diff".to_string(),
        project_name: Some("beta".to_string()),
        author: None,
        operation: "fetch commit diff".to_string(),
        error: "HTTP error! status: 500".to_string(),
    }];
    let r1 = generate_report(&agg, &failures);
    let r2 = generate_report(&agg, &failures);
    assert!(same_report(&r1, &r2));
}

#[test]
fn failure_list_appears_only_when_non_empty() {
    let agg = Aggregator::new();
    let none = generate_report(&agg, &Vec::new());
    assert!(none.failure_stats.is_none());
    let failures = vec![FailureRecord {
        url: "v4/x".to_string(),
        project_name: None,
        author: None,
        operation: "fetch project list".to_string(),
        error: "timed out".to_string(),
    }];
    let some = generate_report(&agg, &failures);
    let recorded = some.failure_stats.expect("non-empty failure log must appear");
    assert_eq!(recorded.len(), 1);
    assert_eq!(recorded[0].url, "v4/x");
    assert_eq!(recorded[0].error, "timed out");
}

#[test]
fn equal_sizes_keep_aggregator_order() {
    let mut agg = Aggregator::new();
    record(&mut agg, "First", "f@example.com", "alpha", &stats(1, 0, 1, 1024));
    record(&mut agg, "Second", "s@example.com", "alpha", &stats(1, 0, 1, 1024));
    let report = generate_report(&agg, &Vec::new());
    assert_eq!(report.code_stats[0].key, "First-total");
    assert_eq!(report.code_stats[1].key, "Second-total");
}
