use metaforge::fs_model::FsSnapshot;
use metaforge::gomod::go_internal_dependencies;
use metaforge::languages::Dependencies;
use metaforge::languages::Go;
use metaforge::languages::Languages;
use metaforge::languages::Rust;
use metaforge::project::scan;
use metaforge::project::Project;

fn path(parts: &[&str]) -> Vec<String> {
    parts.iter().map(|s| s.to_string()).collect()
}

#[test]
fn test_scan_discovers_one_project_per_manifest() {
    let fs = FsSnapshot {
        dirs: vec![path(&["repo"]), path(&["repo", ".git"]), path(&["repo", "sub", "deep"])],
        files: vec![
            path(&["repo", "go.mod"]),
            path(&["repo", "README.md"]),
            path(&["repo", "sub", "deep", "Cargo.toml"]),
            path(&["elsewhere", "go.mod"]),
        ],
    };
    let projects = scan(&fs, &path(&["repo"]));
    assert_eq!(projects.len(), 2);
    assert_eq!(projects[0].root, path(&["repo"]));
    assert!(matches!(projects[0].language, Languages::Go(_)));
    assert_eq!(projects[1].root, path(&["repo", "sub", "deep"]));
    assert!(matches!(projects[1].language, Languages::Rust(_)));
}

#[test]
fn test_scan_two_manifests_in_one_directory() {
    let fs = FsSnapshot {
        dirs: vec![path(&["repo"])],
        files: vec![path(&["repo", "go.mod"]), path(&["repo", "Cargo.toml"])],
    };
    let projects = scan(&fs, &path(&["repo"]));
    assert_eq!(projects.len(), 2);
    assert_eq!(projects[0].root, path(&["repo"]));
    assert_eq!(projects[1].root, path(&["repo"]));
    assert!(matches!(projects[0].language, Languages::Go(_)));
    assert!(matches!(projects[1].language, Languages::Rust(_)));
}

#[test]
fn test_scan_empty_repository_yields_no_projects() {
    let fs = FsSnapshot {
        dirs: vec![path(&["repo"]), path(&["repo", ".git"])],
        files: vec![],
    };
    let projects = scan(&fs, &path(&["repo"]));
    assert_eq!(projects.len(), 0);
}

#[test]
fn test_scan_ignores_non_manifest_files() {
    let fs = FsSnapshot {
        dirs: vec![path(&["repo"])],
        files: vec![
            path(&["repo", "main.go"]),
            path(&["repo", "go.sum"]),
            path(&["repo", "docs", "go.mod.example"]),
        ],
    };
    assert_eq!(scan(&fs, &path(&["repo"])).len(), 0);
}

#[test]
fn test_language_project_file_names() {
    let go = Go {};
    let rust = Rust {};
    assert_eq!(go.get_project_file_name(), "go.mod");
    assert_eq!(rust.get_project_file_name(), "Cargo.toml");
    assert_eq!(Languages::Go(go).get_project_file_name(), "go.mod");
    assert_eq!(Languages::Rust(rust).get_project_file_name(), "Cargo.toml");
}

#[test]
fn test_languages_get_language_and_name() {
    let lang = Languages::Go(Go {});
    assert!(matches!(lang.get_language(), Languages::Go(_)));
    assert_eq!(lang.name(), "Go");
    assert_eq!(Languages::Rust(Rust {}).name(), "Rust");
}

#[test]
fn test_project_new_keeps_fields() {
    let p = Project::new(path(&["repo", "svc"]), Languages::Go(Go {}));
    assert_eq!(p.root, path(&["repo", "svc"]));
    assert!(matches!(p.language, Languages::Go(_)));
}

#[test]
fn test_go_mod_internal_and_external_requires() {
    let text = "require (\n\tbitbucket.org/bxbdigital/pkg v1.0.0\n\tgithub.com/external/pkg v2.0.0\n)";
    let go = Go {};
    let components = go.get_internal_dependencies(text);
    assert_eq!(components.len(), 1);
    assert_eq!(components[0].name, "bitbucket.org/bxbdigital/pkg");
}

#[test]
fn test_project_extraction_dispatches_on_language() {
    let text = "require (\n\tbitbucket.org/bxbdigital/pkg v1.0.0\n)\n";
    let go_project = Project::new(path(&["repo"]), Languages::Go(Go {}));
    let comps = go_project.get_internal_dependencies(text);
    assert_eq!(comps.len(), 1);
    assert_eq!(comps[0].name, "bitbucket.org/bxbdigital/pkg");

    let rust_project = Project::new(path(&["repo"]), Languages::Rust(Rust {}));
    assert_eq!(rust_project.get_internal_dependencies(text).len(), 0);
}

#[test]
fn test_rust_extraction_is_a_placeholder() {
    let rust = Rust {};
    let text = "[dependencies]\nserde = \"1\"\n";
    assert_eq!(rust.get_internal_dependencies(text).len(), 0);
}

#[test]
fn test_go_mod_without_require_block() {
    let text = "module bitbucket.org/bxbdigital/self\n\ngo 1.21\n";
    assert_eq!(go_internal_dependencies(text).len(), 0);
}

#[test]
fn test_go_mod_unclosed_require_block_yields_nothing() {
    let text = "require (\n\tbitbucket.org/bxbdigital/pkg v1.0.0\n";
    assert_eq!(go_internal_dependencies(text).len(), 0);
}

#[test]
fn test_go_mod_two_blocks_in_order_with_duplicates() {
    let text = "require (\n\tbitbucket.org/bxbdigital/alpha v1.0.0\n)\nrequire (\n\tbitbucket.org/bxbdigital/beta v2.0.0\n\tbitbucket.org/bxbdigital/alpha v1.0.0\n)\n";
    let deps = go_internal_dependencies(text);
    assert_eq!(
        deps,
        vec![
            "bitbucket.org/bxbdigital/alpha".to_string(),
            "bitbucket.org/bxbdigital/beta".to_string(),
            "bitbucket.org/bxbdigital/alpha".to_string(),
        ]
    );
}

#[test]
fn test_go_mod_colon_separator_counts_as_internal() {
    let text = "require (\n\tbitbucket.org:bxbdigital/pkg v1.0.0\n)\n";
    let deps = go_internal_dependencies(text);
    assert_eq!(deps, vec!["bitbucket.org:bxbdigital/pkg".to_string()]);
}

#[test]
fn test_go_mod_any_character_between_host_and_org() {
    // the host check leaves the character between `bitbucket` and `org` open
    let text = "require (\n\tbitbucketXorg/bxbdigital/pkg v1.0.0\n)\n";
    let deps = go_internal_dependencies(text);
    assert_eq!(deps, vec!["bitbucketXorg/bxbdigital/pkg".to_string()]);
}

#[test]
fn test_go_mod_other_org_is_excluded() {
    let text = "require (\n\tbitbucket.org/otherteam/pkg v1.0.0\n)\n";
    assert_eq!(go_internal_dependencies(text).len(), 0);
}

#[test]
fn test_go_mod_line_without_tab_is_ignored() {
    let text = "require (\n    bitbucket.org/bxbdigital/pkg v1.0.0\n)\n";
    assert_eq!(go_internal_dependencies(text).len(), 0);
}

#[test]
fn test_go_mod_declaration_needs_version_token() {
    let text = "require (\n\tbitbucket.org/bxbdigital/pkg\n)\n";
    assert_eq!(go_internal_dependencies(text).len(), 0);
}
