use git_tidy::branches::{merge_status, resolve_trunk, BranchInfo};
use git_tidy::error::GitTidyError;

fn empty_tree(repo: &git2::Repository) -> git2::Oid {
    let builder = repo.treebuilder(None).unwrap();
    builder.write().unwrap()
}

/// Open (or create) a scratch repository with at least one commit on the
/// default branch, and return the current head commit id.
fn scratch_repo(path: &str) -> (git2::Repository, git2::Oid) {
    let repo = git2::Repository::init(path).unwrap();
    let sig = git2::Signature::now("tester", "tester@example.com").unwrap();
    if repo.head().is_err() {
        let tree_id = empty_tree(&repo);
        let tree = repo.find_tree(tree_id).unwrap();
        repo.commit(Some("HEAD"), &sig, &sig, "initial", &tree, &[])
            .unwrap();
    }
    let head = repo.head().unwrap().peel_to_commit().unwrap().id();
    (repo, head)
}

#[test]
fn test_delete_round_trip() {
    let (repo, head) = scratch_repo("/tmp/git_tidy_test_roundtrip");
    let head_commit = repo.find_commit(head).unwrap();

    repo.branch("doomed", &head_commit, true).unwrap();

    let mut doomed = repo
        .find_branch("doomed", git2::BranchType::Local)
        .unwrap();
    doomed.delete().unwrap();

    let names: Vec<String> = repo
        .branches(Some(git2::BranchType::Local))
        .unwrap()
        .map(|b| b.unwrap().0.name().unwrap().unwrap().to_string())
        .collect();
    assert!(!names.contains(&"doomed".to_string()));

    let again = repo.find_branch("doomed", git2::BranchType::Local);
    assert!(again.is_err());
    let err = GitTidyError::BranchNotFound("doomed".to_string());
    assert_eq!(err.message(), "Branch 'doomed' not found.");
}

#[test]
fn test_merge_classifier_against_real_graph() {
    let (repo, old_head) = scratch_repo("/tmp/git_tidy_test_ancestry");
    let sig = git2::Signature::now("tester", "tester@example.com").unwrap();
    let old_commit = repo.find_commit(old_head).unwrap();
    let tree = repo.find_tree(empty_tree(&repo)).unwrap();

    // A branch left behind at the old head.
    repo.branch("behind", &old_commit, true).unwrap();

    // A sibling branch that diverges from the old head.
    let side_id = repo
        .commit(None, &sig, &sig, "divergent work", &tree, &[&old_commit])
        .unwrap();
    let side_commit = repo.find_commit(side_id).unwrap();
    repo.branch("divergent", &side_commit, true).unwrap();

    // Advance the default branch past the old head.
    repo.commit(Some("HEAD"), &sig, &sig, "trunk work", &tree, &[&old_commit])
        .unwrap();
    let trunk_tip = repo.head().unwrap().peel_to_commit().unwrap().id();

    let behind_tip = repo
        .find_branch("behind", git2::BranchType::Local)
        .unwrap()
        .get()
        .peel_to_commit()
        .unwrap()
        .id();
    let divergent_tip = repo
        .find_branch("divergent", git2::BranchType::Local)
        .unwrap()
        .get()
        .peel_to_commit()
        .unwrap()
        .id();

    // The branch tip being an ancestor of the trunk tip is what "merged"
    // means; a diverging sibling is not an ancestor.
    let behind_is_ancestor = repo.graph_descendant_of(trunk_tip, behind_tip).unwrap();
    let divergent_is_ancestor = repo.graph_descendant_of(trunk_tip, divergent_tip).unwrap();
    assert!(behind_is_ancestor);
    assert!(!divergent_is_ancestor);

    let infos = vec![
        BranchInfo {
            name: "master".to_string(),
            is_merged: true,
            last_commit_date: 0,
            is_remote: false,
        },
        BranchInfo {
            name: "behind".to_string(),
            is_merged: behind_is_ancestor,
            last_commit_date: 0,
            is_remote: false,
        },
    ];
    let trunk = resolve_trunk(&infos);
    assert!(trunk.is_some());
    assert!(merge_status(&trunk, behind_is_ancestor));
    assert!(!merge_status(&trunk, divergent_is_ancestor));

    // Without a trunk branch nothing reports merged, whatever the graph
    // would say.
    assert!(!merge_status(&None, true));
}
