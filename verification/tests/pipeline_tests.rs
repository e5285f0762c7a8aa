use git_tidy::branches::{merge_status, resolve_trunk, BranchInfo};
use git_tidy::config::Config;
use git_tidy::deletion::check_deletion_guards;
use git_tidy::error::GitTidyError;
use git_tidy::pipeline::{is_branch_protected, plan};
use git_tidy::policy::ProtectionReason;

const NOW: i64 = 1_700_000_000;
const DAY: i64 = 86_400;

fn branch(name: &str, is_merged: bool, days_ago: i64) -> BranchInfo {
    BranchInfo {
        name: name.to_string(),
        is_merged,
        last_commit_date: NOW - days_ago * DAY,
        is_remote: false,
    }
}

#[test]
fn test_current_branch_always_protected() {
    let config = Config {
        protected_branches: git_tidy::config::ProtectedBranches {
            defaults: None,
            additional: None,
            patterns: None,
        },
    };
    let current = Some("just-some-branch".to_string());

    assert!(is_branch_protected(&config, None, &current, "just-some-branch").unwrap());
    assert!(!is_branch_protected(&config, None, &current, "another-branch").unwrap());
}

#[test]
fn test_keep_pattern_protects() {
    let config = Config::new();

    assert!(is_branch_protected(&config, Some("^spike/"), &None, "spike/idea").unwrap());
    assert!(!is_branch_protected(&config, Some("^spike/"), &None, "feature/idea").unwrap());
    assert!(is_branch_protected(&config, Some("(bad"), &None, "anything").is_err());
}

#[test]
fn test_end_to_end_scenario() {
    let config = Config::new();
    let branches = vec![
        branch("main", true, 1),
        branch("feature/a", true, 40),
        branch("feature/b", false, 5),
    ];

    let part = plan(
        &config,
        None,
        &branches,
        &None,
        true,
        Some(30 * DAY),
        NOW,
    )
    .unwrap();

    assert_eq!(part.to_delete.len(), 1);
    assert_eq!(part.to_delete[0].name, "feature/a");

    assert_eq!(part.kept.len(), 1);
    assert_eq!(part.kept[0].branch.name, "feature/b");
    assert!(part.kept[0].not_merged);
    assert!(part.kept[0].too_new);

    assert_eq!(part.protected.len(), 1);
    assert_eq!(part.protected[0].branch.name, "main");
    assert_eq!(part.protected[0].reason, ProtectionReason::Protected);
}

#[test]
fn test_partition_reason_precedence() {
    let mut config = Config::new();
    config.protected_branches.additional = Some(vec!["release/*".to_string()]);
    config.protected_branches.patterns = Some(vec!["^keep/".to_string()]);
    let branches = vec![
        branch("main", true, 1),
        branch("release/1.0", true, 50),
        branch("keep/this", true, 50),
        branch("current-one", true, 50),
    ];
    let current = Some("current-one".to_string());

    let part = plan(&config, None, &branches, &current, false, None, NOW).unwrap();

    assert_eq!(part.to_delete.len(), 0);
    assert_eq!(part.kept.len(), 0);
    assert_eq!(part.protected.len(), 4);
    assert_eq!(part.protected[0].reason, ProtectionReason::Protected);
    assert_eq!(part.protected[1].reason, ProtectionReason::GlobPattern);
    assert_eq!(part.protected[2].reason, ProtectionReason::RegexPattern);
    assert_eq!(part.protected[3].reason, ProtectionReason::Current);
}

#[test]
fn test_age_boundary_in_pipeline() {
    let config = Config::new();
    let branches = vec![
        BranchInfo {
            name: "exactly-at-threshold".to_string(),
            is_merged: true,
            last_commit_date: NOW - 30 * DAY,
            is_remote: false,
        },
        BranchInfo {
            name: "one-second-younger".to_string(),
            is_merged: true,
            last_commit_date: NOW - 30 * DAY + 1,
            is_remote: false,
        },
    ];

    let part = plan(&config, None, &branches, &None, false, Some(30 * DAY), NOW).unwrap();

    assert_eq!(part.to_delete.len(), 1);
    assert_eq!(part.to_delete[0].name, "exactly-at-threshold");
    assert_eq!(part.kept.len(), 1);
    assert_eq!(part.kept[0].branch.name, "one-second-younger");
    assert!(part.kept[0].too_new);
    assert!(!part.kept[0].not_merged);
}

#[test]
fn test_resolve_trunk_prefers_main() {
    let with_both = vec![branch("master", true, 1), branch("main", true, 1)];
    assert_eq!(resolve_trunk(&with_both), Some("main".to_string()));

    let only_master = vec![branch("master", true, 1), branch("dev", true, 1)];
    assert_eq!(resolve_trunk(&only_master), Some("master".to_string()));

    let neither = vec![branch("trunkless", true, 1)];
    assert_eq!(resolve_trunk(&neither), None);
}

#[test]
fn test_merge_status_conservative_default() {
    let trunk = Some("main".to_string());
    assert!(merge_status(&trunk, true));
    assert!(!merge_status(&trunk, false));
    assert!(!merge_status(&None, true));
    assert!(!merge_status(&None, false));
}

#[test]
fn test_deletion_guard_order_and_errors() {
    let mut config = Config::new();
    config.protected_branches.additional = Some(vec!["release/*".to_string()]);
    let current = Some("feature/current".to_string());

    let current_err = check_deletion_guards("feature/current", &config, &current, true);
    assert!(matches!(
        current_err,
        Err(GitTidyError::CurrentBranchCannotBeDeleted(_))
    ));
    assert_eq!(
        current_err.unwrap_err().message(),
        "Cannot delete current branch 'feature/current'. Switch to another branch first."
    );

    let exact_err = check_deletion_guards("master", &config, &current, true);
    match exact_err {
        Err(GitTidyError::BranchProtected {
            name,
            matched_by_glob,
        }) => {
            assert_eq!(name, "master");
            assert!(!matched_by_glob);
        }
        other => panic!("unexpected result: {:?}", other),
    }

    let glob_err = check_deletion_guards("release/1.0", &config, &current, true);
    match glob_err {
        Err(GitTidyError::BranchProtected {
            name,
            matched_by_glob,
        }) => {
            assert_eq!(name, "release/1.0");
            assert!(matched_by_glob);
        }
        other => panic!("unexpected result: {:?}", other),
    }

    let unmerged_err = check_deletion_guards("feature/x", &config, &current, false);
    assert!(matches!(unmerged_err, Err(GitTidyError::BranchNotMerged(_))));
    assert_eq!(
        unmerged_err.unwrap_err().message(),
        "Branch 'feature/x' is not merged. Refusing to delete unmerged branch. \
         Use 'git branch -D feature/x' if you really want to delete it."
    );

    assert!(check_deletion_guards("feature/x", &config, &current, true).is_ok());
}

#[test]
fn test_deletion_guard_idempotent() {
    let config = Config::new();
    let current = Some("main".to_string());

    let first = check_deletion_guards("feature/done", &config, &current, true);
    let second = check_deletion_guards("feature/done", &config, &current, true);

    assert!(first.is_ok());
    assert!(second.is_ok());
}

#[test]
fn test_error_messages() {
    assert_eq!(
        GitTidyError::RepositoryNotFound("/work".to_string()).message(),
        "Git repository not found at /work. Run this command inside a git repository."
    );
    assert_eq!(
        GitTidyError::NotAGitRepository("/work".to_string()).message(),
        "/work is not a git repository."
    );
    assert_eq!(
        GitTidyError::BranchNotFound("gone".to_string()).message(),
        "Branch 'gone' not found."
    );
    assert_eq!(
        GitTidyError::ConfigError("bad toml".to_string()).message(),
        "Configuration error: bad toml"
    );
    assert_eq!(
        GitTidyError::PermissionDenied("/work/.git".to_string()).message(),
        "Permission denied accessing /work/.git. Check file permissions."
    );
    assert_eq!(
        GitTidyError::UnderlyingGitError("odb corrupt".to_string()).message(),
        "Git error: odb corrupt"
    );
    assert!(GitTidyError::BranchNotMerged("x".to_string()).is_guard_failure());
    assert!(!GitTidyError::ConfigError("x".to_string()).is_guard_failure());
}
