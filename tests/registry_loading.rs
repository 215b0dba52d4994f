use coda_ask::loading::{
    build_project_registration_candidate, load_project_registry_from_paths, CurrentWorkspace,
    GlobalConfig, GlobalProjectEntry, LocalProjectOverride, RootProbe,
};
use coda_ask::naming::{decimal_text, derive_default_display_name, derive_default_project_id, validate_project_id};
use coda_ask::registry::{ProjectContext, ProjectRegistry, RegistryError};

fn probe(canonical: &str, docs_dir: bool) -> RootProbe {
    RootProbe { exists: true, is_dir: true, canonical: Some(canonical.to_string()), docs_dir }
}

fn entry(id: &str, path: &str, name: Option<&str>, docs_dir: bool) -> GlobalProjectEntry {
    GlobalProjectEntry {
        project_id: id.to_string(),
        path: path.to_string(),
        display_name: name.map(|n| n.to_string()),
        probe: probe(path.trim(), docs_dir),
    }
}

fn workspace(root: &str) -> CurrentWorkspace {
    CurrentWorkspace { root: root.to_string(), docs_dir: true }
}

fn local(id: Option<&str>, name: Option<&str>) -> Option<LocalProjectOverride> {
    Some(LocalProjectOverride {
        id: id.map(|v| v.to_string()),
        display_name: name.map(|v| v.to_string()),
    })
}

#[test]
fn project_registry_tests_merges_global_registry_with_local_override_for_current_workspace() {
    let global = GlobalConfig {
        projects: vec![
            entry("alpha", "/tmp/merge/alpha-workspace", Some("Alpha"), true),
            entry("beta", "/tmp/merge/beta-workspace", Some("Beta"), true),
        ],
        active_project_id: Some("beta".to_string()),
    };
    let registry = load_project_registry_from_paths(
        &workspace("/tmp/merge/alpha-workspace"),
        &global,
        &local(Some("alpha_local"), Some("Alpha Local")),
    )
    .expect("registry should load with local override");

    assert_eq!(registry.projects.len(), 2);
    let local_project = registry
        .projects
        .iter()
        .find(|project| project.root_path == "/tmp/merge/alpha-workspace")
        .expect("current project should exist");
    assert_eq!(local_project.project_id, "alpha_local");
    assert_eq!(local_project.display_name, "Alpha Local");
    assert!(local_project.has_local_override);
    assert_eq!(registry.preferred_active_project_id.as_deref(), Some("beta"));
}

#[test]
fn project_registry_tests_rejects_duplicate_project_ids_after_local_override() {
    let global = GlobalConfig {
        projects: vec![
            entry("alpha", "/tmp/dup/alpha-workspace", None, true),
            entry("beta", "/tmp/dup/beta-workspace", None, true),
        ],
        active_project_id: None,
    };
    let error = load_project_registry_from_paths(
        &workspace("/tmp/dup/alpha-workspace"),
        &global,
        &local(Some("beta"), None),
    )
    .expect_err("duplicate project id should fail");
    assert!(error.message().contains("duplicate project_id 'beta'"));
}

#[test]
fn project_registry_tests_rejects_project_registration_when_docs_directory_is_missing() {
    let global = GlobalConfig {
        projects: vec![entry("sample", "/tmp/missing/workspace-no-docs", None, false)],
        active_project_id: None,
    };
    let current = CurrentWorkspace {
        root: "/tmp/missing/workspace-no-docs".to_string(),
        docs_dir: false,
    };
    let error = load_project_registry_from_paths(&current, &global, &None)
        .expect_err("missing docs directory should fail");
    assert!(error.message().contains("docs directory does not exist under root path"));
}

#[test]
fn current_workspace_is_added_with_derived_id_and_projects_sorted() {
    let global = GlobalConfig {
        projects: vec![
            entry("zeta", " /w/zeta ", Some("zulu"), true),
            entry("my-app", "/w/other", Some("Alpha"), true),
        ],
        active_project_id: Some("  ".to_string()),
    };
    let registry = load_project_registry_from_paths(&workspace("/w/My App"), &global, &None)
        .expect("registry should load");
    let ids: Vec<&str> = registry.projects.iter().map(|p| p.project_id.as_str()).collect();
    assert_eq!(ids, vec!["my-app", "my-app-2", "zeta"]);
    assert_eq!(registry.projects[1].display_name, "My App");
    assert_eq!(registry.projects[1].docs_path, "/w/My App/docs");
    assert_eq!(registry.projects[2].root_path, "/w/zeta");
    assert_eq!(registry.preferred_active_project_id, None);
}

#[test]
fn local_override_applies_to_added_workspace() {
    let global = GlobalConfig { projects: Vec::new(), active_project_id: None };
    let mut current = workspace("/w/here");
    current.docs_dir = true;
    let registry = load_project_registry_from_paths(&current, &global, &local(None, Some(" Here ")))
        .expect("registry should load");
    assert_eq!(registry.projects[0].display_name, "Here");
    assert_eq!(registry.projects[0].project_id, "here");
}

#[test]
fn invalid_and_blank_ids_are_refused() {
    assert_eq!(validate_project_id(""), Err(RegistryError::EmptyProjectId));
    assert_eq!(
        validate_project_id("Bad Id"),
        Err(RegistryError::InvalidProjectId { project_id: "Bad Id".to_string() })
    );
    assert_eq!(validate_project_id("ok-id_9"), Ok(()));
    let global = GlobalConfig {
        projects: vec![entry("  ", "/w/a", None, true)],
        active_project_id: None,
    };
    assert_eq!(
        load_project_registry_from_paths(&workspace("/w/a"), &global, &None).unwrap_err(),
        RegistryError::EmptyField { label: "project_id".to_string() }
    );
}

#[test]
fn duplicate_roots_and_missing_roots_are_refused() {
    let global = GlobalConfig {
        projects: vec![entry("a", "/w/a", None, true), entry("b", "/w/a", None, true)],
        active_project_id: None,
    };
    assert_eq!(
        load_project_registry_from_paths(&workspace("/w/a"), &global, &None).unwrap_err(),
        RegistryError::DuplicateRootPath { root_path: "/w/a".to_string() }
    );
    let mut gone = entry("c", "/w/c", None, true);
    gone.probe = RootProbe { exists: false, is_dir: false, canonical: None, docs_dir: false };
    let global = GlobalConfig { projects: vec![gone], active_project_id: None };
    let error = load_project_registry_from_paths(&workspace("/w/a"), &global, &None).unwrap_err();
    assert_eq!(error, RegistryError::MissingRoot { root_path: "/w/c".to_string() });
    assert_eq!(error.message(), "project registration failed: root path does not exist: /w/c");
}

#[test]
fn default_ids_and_names() {
    let existing = vec!["docs-site".to_string(), "docs-site-2".to_string()];
    assert_eq!(derive_default_project_id("/home/me/Docs Site", &existing), "docs-site-3");
    assert_eq!(derive_default_project_id("/home/me/--Ünï--", &Vec::new()), "n");
    assert_eq!(derive_default_project_id("/home/me/---", &Vec::new()), "project");
    assert_eq!(derive_default_project_id("/", &Vec::new()), "project");
    assert_eq!(derive_default_display_name("/home/me/Docs Site"), "Docs Site");
    assert_eq!(derive_default_display_name("/"), "Project");
    assert_eq!(decimal_text(0), "0");
    assert_eq!(decimal_text(4_294_967_295), "4294967295");
}

#[test]
fn registration_candidate_gets_unique_id() {
    let registry = ProjectRegistry {
        projects: vec![ProjectContext {
            project_id: "site".to_string(),
            display_name: "Site".to_string(),
            root_path: "/w/old/site".to_string(),
            docs_path: "/w/old/site/docs".to_string(),
            has_local_override: false,
        }],
        preferred_active_project_id: None,
    };
    let candidate = build_project_registration_candidate(&registry, " /w/new/Site ", &probe("/w/new/Site", true))
        .expect("registration should succeed");
    assert_eq!(candidate.project_id, "site-2");
    assert_eq!(candidate.display_name, "Site");
    assert_eq!(candidate.root_path, "/w/new/Site");
    assert_eq!(candidate.docs_path, "/w/new/Site/docs");
    assert!(!candidate.has_local_override);

    assert_eq!(
        build_project_registration_candidate(&registry, "/w/old/site", &probe("/w/old/site", true)).unwrap_err(),
        RegistryError::DuplicateRootPath { root_path: "/w/old/site".to_string() }
    );
    assert_eq!(
        build_project_registration_candidate(&registry, "/w/x", &probe("/w/x", false)).unwrap_err(),
        RegistryError::MissingDocs { root_path: "/w/x".to_string() }
    );
    assert_eq!(
        build_project_registration_candidate(&registry, "  ", &probe("/w/x", true)).unwrap_err(),
        RegistryError::EmptyField { label: "root_path".to_string() }
    );
    let not_dir = RootProbe { exists: true, is_dir: false, canonical: None, docs_dir: false };
    assert_eq!(
        build_project_registration_candidate(&registry, "/w/file", &not_dir).unwrap_err(),
        RegistryError::RootNotDirectory { root_path: "/w/file".to_string() }
    );
}
