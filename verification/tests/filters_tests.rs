use git_tidy::branches::{classify_age, sort_branches_by_recency, AgeBucket, BranchInfo};
use git_tidy::filters::{
    filter_by_age, filter_by_merge_status, filter_by_pattern, filter_out_protected,
};

const NOW: i64 = 1_700_000_000;
const DAY: i64 = 86_400;

fn create_test_branch(name: &str, is_merged: bool, days_ago: i64) -> BranchInfo {
    BranchInfo {
        name: name.to_string(),
        is_merged,
        last_commit_date: NOW - days_ago * DAY,
        is_remote: false,
    }
}

#[test]
fn test_filter_by_age() {
    let branches = vec![
        create_test_branch("old-feature", true, 45),
        create_test_branch("new-feature", true, 15),
        create_test_branch("ancient-feature", true, 90),
    ];

    let filtered = filter_by_age(&branches, 30 * DAY, NOW);

    assert_eq!(filtered.len(), 2);
    assert!(filtered.iter().any(|b| b.name == "old-feature"));
    assert!(filtered.iter().any(|b| b.name == "ancient-feature"));
    assert!(!filtered.iter().any(|b| b.name == "new-feature"));
}

#[test]
fn test_filter_by_age_exact_cutoff() {
    let branches = vec![
        create_test_branch("exactly-30-days", true, 30),
        create_test_branch("31-days", true, 31),
    ];

    let filtered = filter_by_age(&branches, 30 * DAY, NOW);

    assert_eq!(filtered.len(), 2);
    assert!(filtered.iter().any(|b| b.name == "31-days"));
    assert!(filtered.iter().any(|b| b.name == "exactly-30-days"));
}

#[test]
fn test_filter_by_age_one_second_younger() {
    let branches = vec![
        BranchInfo {
            name: "at-threshold".to_string(),
            is_merged: true,
            last_commit_date: NOW - 30 * DAY,
            is_remote: false,
        },
        BranchInfo {
            name: "one-second-younger".to_string(),
            is_merged: true,
            last_commit_date: NOW - 30 * DAY + 1,
            is_remote: false,
        },
    ];

    let filtered = filter_by_age(&branches, 30 * DAY, NOW);

    assert_eq!(filtered.len(), 1);
    assert_eq!(filtered[0].name, "at-threshold");
}

#[test]
fn test_filter_out_protected() {
    let branches = vec![
        create_test_branch("master", true, 1),
        create_test_branch("develop", true, 1),
        create_test_branch("feature-1", true, 1),
        create_test_branch("feature-2", true, 1),
    ];

    let protected = vec!["master".to_string(), "develop".to_string()];
    let current_branch = Some("feature-1".to_string());

    let filtered = filter_out_protected(&branches, &protected, &current_branch);

    assert_eq!(filtered.len(), 1);
    assert_eq!(filtered[0].name, "feature-2");
}

#[test]
fn test_filter_out_protected_current_branch() {
    let branches = vec![
        create_test_branch("master", true, 1),
        create_test_branch("feature-1", true, 1),
        create_test_branch("feature-2", true, 1),
    ];

    let protected = vec!["master".to_string()];
    let current_branch = Some("feature-1".to_string());

    let filtered = filter_out_protected(&branches, &protected, &current_branch);

    assert_eq!(filtered.len(), 1);
    assert_eq!(filtered[0].name, "feature-2");
}

#[test]
fn test_filter_by_merge_status() {
    let branches = vec![
        create_test_branch("merged-feature", true, 30),
        create_test_branch("unmerged-feature", false, 30),
        create_test_branch("another-merged", true, 30),
    ];

    let filtered = filter_by_merge_status(&branches, true);

    assert_eq!(filtered.len(), 2);
    assert!(filtered.iter().all(|b| b.is_merged));
}

#[test]
fn test_filter_by_pattern() {
    let branches = vec![
        create_test_branch("feature/auth", true, 30),
        create_test_branch("feature/api", true, 30),
        create_test_branch("bugfix/login", true, 30),
    ];

    let filtered = filter_by_pattern(&branches, "^feature/").unwrap();

    assert_eq!(filtered.len(), 2);
    assert!(filtered.iter().all(|b| b.name.starts_with("feature/")));
}

#[test]
fn test_filter_by_pattern_invalid() {
    let branches = vec![create_test_branch("feature/auth", true, 30)];

    let result = filter_by_pattern(&branches, "(unclosed");
    assert!(result.is_err());
    assert_eq!(
        result.unwrap_err().message(),
        "Configuration error: Invalid regex '(unclosed'"
    );
}

#[test]
fn test_sort_branches_by_recency() {
    let branches = vec![
        create_test_branch("older", true, 10),
        create_test_branch("newest", true, 1),
        create_test_branch("oldest", true, 100),
    ];

    let sorted = sort_branches_by_recency(&branches);

    assert_eq!(sorted.len(), 3);
    assert_eq!(sorted[0].name, "newest");
    assert_eq!(sorted[1].name, "older");
    assert_eq!(sorted[2].name, "oldest");
}

#[test]
fn test_classify_age_buckets() {
    assert_eq!(classify_age(NOW, NOW - 30 * 60), AgeBucket::Minutes(30));
    assert_eq!(classify_age(NOW, NOW - 5 * 3600), AgeBucket::Hours(5));
    assert_eq!(classify_age(NOW, NOW - 3 * DAY), AgeBucket::Days(3));
    assert_eq!(classify_age(NOW, NOW - 40 * DAY), AgeBucket::Months(1));
    assert_eq!(classify_age(NOW, NOW - 400 * DAY), AgeBucket::Years(1));
}
