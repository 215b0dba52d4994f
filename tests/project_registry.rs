use coda_ask::project_runtime::{resolve_initial_active_project_id, ProjectRegistryState};
use coda_ask::registry::{
    has_project_id, normalize_required_text, validate_project_removal, validate_project_selection,
    ProjectContext, ProjectRegistry, RegistryError,
};

fn project(id: &str, name: &str) -> ProjectContext {
    ProjectContext {
        project_id: id.to_string(),
        display_name: name.to_string(),
        root_path: format!("/work/{id}"),
        docs_path: format!("/work/{id}/docs"),
        has_local_override: false,
    }
}

fn two_projects(preferred: Option<&str>) -> ProjectRegistry {
    ProjectRegistry {
        projects: vec![project("alpha", "Alpha"), project("beta", "Beta")],
        preferred_active_project_id: preferred.map(|p| p.to_string()),
    }
}

#[test]
fn restores_active_project_from_persisted_state_file() {
    let state = ProjectRegistryState::from_paths(
        two_projects(None),
        Some("beta".to_string()),
        "/home/.coda/app-state.toml".to_string(),
    )
    .expect("runtime state should load");
    let active = state.active_project_summary().expect("active project should resolve");
    assert_eq!(active.project_id, "beta");
}

#[test]
fn rejects_unknown_project_selection() {
    let mut state = ProjectRegistryState::from_paths(
        ProjectRegistry {
            projects: vec![project("alpha", "Alpha")],
            preferred_active_project_id: None,
        },
        None,
        "/home/.coda/app-state.toml".to_string(),
    )
    .expect("runtime state should load");
    let error = state
        .set_active_project_by_id("missing")
        .expect_err("unknown project id should fail");
    assert!(error.message().contains("unknown project_id 'missing'"));
    assert_eq!(state.active_project_id(), "alpha");
}

#[test]
fn project_registry_tests_validates_selection_and_removal_contract_messages() {
    let registry = two_projects(None);
    let unknown_error =
        validate_project_selection(&registry, "unknown").expect_err("unknown selection should fail");
    assert!(unknown_error.message().contains("project selection failed"));

    let removal_error = validate_project_removal(&registry, "alpha", "alpha")
        .expect_err("active project removal should fail");
    assert!(removal_error.message().contains("cannot remove active project 'alpha'"));
}

#[test]
fn persists_selected_project_in_memory() {
    let mut state =
        ProjectRegistryState::from_paths(two_projects(None), None, "/state.toml".to_string())
            .expect("runtime state should load");
    assert_eq!(state.active_project_id(), "alpha");
    let selected = state.set_active_project_by_id("  beta ").expect("beta is registered");
    assert_eq!(selected.project_id, "beta");
    assert_eq!(selected.display_name, "Beta");
    assert_eq!(selected.docs_path, "/work/beta/docs");
    assert_eq!(state.active_project_context().unwrap().project_id, "beta");
    assert_eq!(state.active_state_path(), "/state.toml");
    let summaries = state.list_project_summaries();
    assert_eq!(summaries.len(), 2);
    assert_eq!(summaries[0].project_id, "alpha");
    assert_eq!(summaries[1].root_path, "/work/beta");
}

#[test]
fn empty_registry_is_refused() {
    let refused = ProjectRegistryState::from_paths(
        ProjectRegistry { projects: Vec::new(), preferred_active_project_id: None },
        None,
        "/state.toml".to_string(),
    );
    let error = refused.err().expect("empty registry should fail");
    assert_eq!(error, RegistryError::EmptyRegistry);
    assert_eq!(error.message(), "project registry is empty; register at least one project");
}

#[test]
fn initial_active_project_prefers_persisted_then_preferred_then_first() {
    let registry = two_projects(Some("beta"));
    assert_eq!(resolve_initial_active_project_id(&registry, Some("alpha".to_string())), "alpha");
    assert_eq!(resolve_initial_active_project_id(&registry, Some("gone".to_string())), "beta");
    assert_eq!(resolve_initial_active_project_id(&registry, None), "beta");
    let no_preference = two_projects(Some("gone"));
    assert_eq!(resolve_initial_active_project_id(&no_preference, None), "alpha");
}

#[test]
fn removal_rules() {
    let registry = two_projects(None);
    assert_eq!(validate_project_removal(&registry, "alpha", "beta"), Ok(()));
    let single = ProjectRegistry {
        projects: vec![project("alpha", "Alpha")],
        preferred_active_project_id: None,
    };
    let error = validate_project_removal(&single, "alpha", "alpha").unwrap_err();
    assert_eq!(error, RegistryError::LastProject);
    assert_eq!(
        error.message(),
        "project removal failed: cannot remove the last registered project."
    );
    assert_eq!(
        validate_project_removal(&registry, "nope", "beta").unwrap_err(),
        RegistryError::UnknownProject { project_id: "nope".to_string() }
    );
}

#[test]
fn selection_trims_and_rejects_blank() {
    let registry = two_projects(None);
    let selected = validate_project_selection(&registry, " alpha\t").unwrap();
    assert_eq!(selected.project_id, "alpha");
    let error = validate_project_selection(&registry, "   ").unwrap_err();
    assert_eq!(error, RegistryError::EmptyField { label: "project_id".to_string() });
    assert_eq!(error.message(), "project registration failed: project_id must not be empty");
    assert!(has_project_id(&registry, "beta"));
    assert!(!has_project_id(&registry, " beta"));
    assert_eq!(normalize_required_text("  x ", "label"), Ok("x".to_string()));
}

#[test]
fn summary_copies_every_field() {
    let mut context = project("alpha", "Alpha");
    context.has_local_override = true;
    let summary = context.to_summary();
    assert_eq!(summary.project_id, "alpha");
    assert_eq!(summary.display_name, "Alpha");
    assert_eq!(summary.root_path, "/work/alpha");
    assert_eq!(summary.docs_path, "/work/alpha/docs");
    assert!(summary.has_local_override);
}
