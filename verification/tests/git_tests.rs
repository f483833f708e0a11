use metaforge::fs_model::FsSnapshot;
use metaforge::git::find_git_repo_root;
use metaforge::git::repo_name_from_url;
use metaforge::git::FindGitRepoRootError;

fn path(parts: &[&str]) -> Vec<String> {
    parts.iter().map(|s| s.to_string()).collect()
}

fn snapshot_with_dirs(dirs: &[&[&str]]) -> FsSnapshot {
    FsSnapshot { dirs: dirs.iter().map(|p| path(p)).collect(), files: vec![] }
}

#[test]
fn test_find_git_repo_root() {
    let test_dir = path(&["tmp", "repo"]);
    let fs = snapshot_with_dirs(&[&["tmp"], &["tmp", "repo"], &["tmp", "repo", ".git"]]);

    let result = find_git_repo_root(&fs, &test_dir);

    assert!(result.is_ok(), "Failed to find git repo root: {:?}", result);
    assert_eq!(test_dir, result.unwrap());
}

#[test]
fn test_find_git_repo_root_not_found() {
    let test_dir = path(&["tmp", "repo"]);
    let fs = snapshot_with_dirs(&[&["tmp"], &["tmp", "repo"]]);
    let result = find_git_repo_root(&fs, &test_dir);
    assert!(result.is_err(), "Expected error but found: {:?}", result);
    assert_eq!(result.unwrap_err(), FindGitRepoRootError::FailedToFindGitRepoRoot);
}

#[test]
fn test_find_git_repo_root_recursive() {
    let test_dir = path(&["tmp", "repo"]);
    let nested_dir = path(&["tmp", "repo", "nested"]);
    let fs = snapshot_with_dirs(&[&["tmp"], &["tmp", "repo"], &["tmp", "repo", ".git"]]);

    let result = find_git_repo_root(&fs, &nested_dir);

    assert!(
        result.is_ok(),
        "Failed to find git repo root during recursive test: {:?}",
        result
    );
    assert_eq!(test_dir, result.unwrap());
}

#[test]
fn test_find_git_repo_root_deeply_nested_start() {
    let marked = path(&["home", "work", "repo"]);
    let start = path(&["home", "work", "repo", "a", "b", "c", "d"]);
    let fs = snapshot_with_dirs(&[&["home", "work", "repo", ".git"]]);
    assert_eq!(find_git_repo_root(&fs, &start).unwrap(), marked);
}

#[test]
fn test_find_git_repo_root_prefers_nearest_marker() {
    let outer = path(&["top"]);
    let inner = path(&["top", "mid"]);
    let fs = snapshot_with_dirs(&[&["top", ".git"], &["top", "mid", ".git"]]);
    let start = path(&["top", "mid", "leaf"]);
    assert_eq!(find_git_repo_root(&fs, &start).unwrap(), inner);
    assert_eq!(find_git_repo_root(&fs, &outer).unwrap(), outer);
}

#[test]
fn test_find_git_repo_root_marker_at_fs_root() {
    let fs = snapshot_with_dirs(&[&[".git"]]);
    let start = path(&["some", "dir"]);
    assert_eq!(find_git_repo_root(&fs, &start).unwrap(), path(&[]));
}

#[test]
fn test_find_git_repo_root_ignores_marker_file() {
    // only a directory named .git marks the root; a file of that name does not
    let fs = FsSnapshot { dirs: vec![path(&["tmp"])], files: vec![path(&["tmp", ".git"])] };
    let result = find_git_repo_root(&fs, &path(&["tmp"]));
    assert!(result.is_err(), "Expected error but found: {:?}", result);
}

#[test]
fn test_get_origin_remote_repo_name() {
    let remote = repo_name_from_url("git@bitbucket.org:acompany/myrepo.git");
    assert_eq!(remote, "myrepo");
}

#[test]
fn test_repo_name_from_https_url_with_git_suffix() {
    assert_eq!(repo_name_from_url("https://bitbucket.org/acme/widget.git"), "widget");
}

#[test]
fn test_repo_name_from_url_without_git_suffix() {
    assert_eq!(repo_name_from_url("https://bitbucket.org/acme/widget"), "widget");
}

#[test]
fn test_repo_name_trims_command_output() {
    assert_eq!(repo_name_from_url("https://host/org/name.git\n"), "name");
    assert_eq!(repo_name_from_url("  https://host/org/name \n"), "name");
}

#[test]
fn test_repo_name_empty_for_trailing_slash() {
    assert_eq!(repo_name_from_url("https://host/org/"), "");
}

#[test]
fn test_repo_name_without_any_slash() {
    assert_eq!(repo_name_from_url("name.git"), "name");
    assert_eq!(repo_name_from_url("name"), "name");
}
