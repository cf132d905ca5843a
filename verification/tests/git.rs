use maproom::cli::git::{get_git_info, repo_name_from_remote};

#[test]
fn test_repo_name_from_https_remote() {
    assert_eq!(
        repo_name_from_remote("https://github.com/owner/repo.git"),
        Some("owner/repo".to_string())
    );
    assert_eq!(repo_name_from_remote("https://github.com/owner/repo"), Some("owner/repo".to_string()));
}

#[test]
fn test_repo_name_from_ssh_remote() {
    assert_eq!(repo_name_from_remote("git@github.com:owner/repo.git\n"), Some("owner/repo".to_string()));
}

#[test]
fn test_repo_name_from_unrecognised_remote() {
    assert_eq!(repo_name_from_remote("repo"), None);
    assert_eq!(repo_name_from_remote(""), None);
}

#[test]
fn test_git_info_uses_remote_branch_and_commit() {
    let (repo, branch, commit) = get_git_info(
        Some("git@github.com:acme/widgets.git\n"),
        Some("widgets-checkout"),
        Some("feature/search\n"),
        Some(" 0123abcd\n"),
    );
    assert_eq!(repo, "acme/widgets");
    assert_eq!(branch, "feature/search");
    assert_eq!(commit, "0123abcd");
}

#[test]
fn test_git_info_fallbacks() {
    let (repo, branch, commit) = get_git_info(None, Some("checkout"), None, None);
    assert_eq!(repo, "checkout");
    assert_eq!(branch, "main");
    assert_eq!(commit, "HEAD");
    let (repo, _, _) = get_git_info(Some("not a url"), None, None, None);
    assert_eq!(repo, "unknown");
}

#[test]
fn branch_switch_to_a_new_branch() {
    assert_eq!(
        maproom::cli::git::branch_to_switch_to("main", "feature/x", None),
        Some("feature/x".to_string())
    );
}

#[test]
fn branch_switch_to_the_same_branch_is_skipped() {
    assert_eq!(maproom::cli::git::branch_to_switch_to("main", "main", Some("abcdef12\n")), None);
}

#[test]
fn detached_head_is_named_by_its_short_sha() {
    assert_eq!(
        maproom::cli::git::branch_to_switch_to("main", "HEAD", Some("abcdef12\n")),
        Some("abcdef12".to_string())
    );
    assert_eq!(maproom::cli::git::branch_to_switch_to("abcdef12", "HEAD", Some(" abcdef12 ")), None);
}

#[test]
fn detached_head_without_sha_is_skipped() {
    assert_eq!(maproom::cli::git::branch_to_switch_to("main", "HEAD", None), None);
}
