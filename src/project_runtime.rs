//! The registry together with the project that is currently active.
use vstd::prelude::*;
use crate::registry::{
    ProjectContext, ProjectRegistry, ProjectSummary, ProjectView, RegistryError, RegistryFault,
    context_result, has_id, has_project_id, projects_view, selection, validate_project_selection,
};
use crate::text::opt_text;

verus! {

/// The registry, the id of the active project, and the file where the
/// active project is remembered.
pub struct ProjectRegistryState {
    registry: ProjectRegistry,
    active_project_id: String,
    active_state_path: String,
}

pub struct RuntimeView {
    pub projects: Seq<ProjectView>,
    pub preferred_active_project_id: Option<Seq<char>>,
    pub active_project_id: Seq<char>,
    pub active_state_path: Seq<char>,
}

impl View for ProjectRegistryState {
    type V = RuntimeView;

    closed spec fn view(&self) -> RuntimeView {
        RuntimeView {
            projects: projects_view(self.registry.projects@),
            preferred_active_project_id: opt_text(self.registry.preferred_active_project_id),
            active_project_id: self.active_project_id@,
            active_state_path: self.active_state_path@,
        }
    }
}

/// The project that starts out active: the remembered one if it is still
/// registered, else the preferred one if registered, else the first.
pub open spec fn initial_active_id(
    ps: Seq<ProjectView>,
    preferred: Option<Seq<char>>,
    persisted: Option<Seq<char>>,
) -> Seq<char> {
    if persisted is Some && has_id(ps, persisted->Some_0) {
        persisted->Some_0
    } else if preferred is Some && has_id(ps, preferred->Some_0) {
        preferred->Some_0
    } else if ps.len() > 0 {
        ps[0].project_id
    } else {
        Seq::empty()
    }
}

/// Picks the project that starts out active.
pub fn resolve_initial_active_project_id(
    registry: &ProjectRegistry,
    persisted_active_project_id: Option<String>,
) -> (r: String)
    ensures
        r@ == initial_active_id(
            projects_view(registry.projects@),
            opt_text(registry.preferred_active_project_id),
            opt_text(persisted_active_project_id),
        ),
{
    if let Some(project_id) = persisted_active_project_id {
        if has_project_id(registry, project_id.as_str()) {
            return project_id;
        }
    }
    if let Some(preferred) = &registry.preferred_active_project_id {
        if has_project_id(registry, preferred.as_str()) {
            return preferred.clone();
        }
    }
    if registry.projects.len() > 0 {
        assert(projects_view(registry.projects@)[0] == registry.projects@[0]@);
        registry.projects[0].project_id.clone()
    } else {
        String::new()
    }
}

impl ProjectRegistryState {
    /// Starts from a loaded registry, the id remembered in the state file
    /// (if any), and the state file's path; an empty registry is refused.
    pub fn from_paths(
        registry: ProjectRegistry,
        persisted_active_project_id: Option<String>,
        active_state_path: String,
    ) -> (r: Result<Self, RegistryError>)
        ensures
            registry.projects@.len() == 0 ==> (r matches Err(e) && e@ == RegistryFault::EmptyRegistry),
            registry.projects@.len() > 0 ==> (r matches Ok(state) && {
                &&& state@.projects == projects_view(registry.projects@)
                &&& state@.preferred_active_project_id == opt_text(
                    registry.preferred_active_project_id,
                )
                &&& state@.active_project_id == initial_active_id(
                    projects_view(registry.projects@),
                    opt_text(registry.preferred_active_project_id),
                    opt_text(persisted_active_project_id),
                )
                &&& state@.active_state_path == active_state_path@
            }),
    {
        if registry.projects.len() == 0 {
            return Err(RegistryError::EmptyRegistry);
        }
        let active_project_id = resolve_initial_active_project_id(
            &registry,
            persisted_active_project_id,
        );
        Ok(ProjectRegistryState { registry, active_project_id, active_state_path })
    }

    /// Every registered project, as shown to the presentation layer.
    pub fn list_project_summaries(&self) -> (r: Vec<ProjectSummary>)
        ensures
            r@.map_values(|s: ProjectSummary| s@) == self@.projects,
    {
        let mut out: Vec<ProjectSummary> = Vec::new();
        let mut i: usize = 0;
        while i < self.registry.projects.len()
            invariant
                i <= self.registry.projects@.len(),
                out@.len() == i,
                forall|k: int| 0 <= k < i ==> #[trigger] out@[k]@ == self.registry.projects@[k]@,
            decreases self.registry.projects@.len() - i,
        {
            out.push(self.registry.projects[i].to_summary());
            i += 1;
        }
        assert(out@.map_values(|s: ProjectSummary| s@) =~= self@.projects);
        out
    }

    /// The active project.
    pub fn active_project_context(&self) -> (r: Result<ProjectContext, RegistryError>)
        ensures
            context_result(r) == selection(self@.projects, self@.active_project_id),
    {
        validate_project_selection(&self.registry, self.active_project_id.as_str())
    }

    /// The active project, as shown to the presentation layer.
    pub fn active_project_summary(&self) -> (r: Result<ProjectSummary, RegistryError>)
        ensures
            match r {
                Ok(s) => selection(self@.projects, self@.active_project_id) == Ok::<
                    ProjectView,
                    RegistryFault,
                >(s@),
                Err(e) => selection(self@.projects, self@.active_project_id) == Err::<
                    ProjectView,
                    RegistryFault,
                >(e@),
            },
    {
        match self.active_project_context() {
            Ok(c) => Ok(c.to_summary()),
            Err(e) => Err(e),
        }
    }

    /// Makes the selected project active; the caller then records its id in
    /// the state file. An unknown or blank id changes nothing.
    pub fn set_active_project_by_id(&mut self, project_id: &str) -> (r: Result<
        ProjectSummary,
        RegistryError,
    >)
        ensures
            final(self)@.projects == old(self)@.projects,
            final(self)@.preferred_active_project_id == old(self)@.preferred_active_project_id,
            final(self)@.active_state_path == old(self)@.active_state_path,
            match r {
                Ok(s) => {
                    &&& selection(old(self)@.projects, project_id@) == Ok::<
                        ProjectView,
                        RegistryFault,
                    >(s@)
                    &&& final(self)@.active_project_id == s@.project_id
                },
                Err(e) => {
                    &&& selection(old(self)@.projects, project_id@) == Err::<
                        ProjectView,
                        RegistryFault,
                    >(e@)
                    &&& final(self)@.active_project_id == old(self)@.active_project_id
                },
            },
    {
        let next_project = match validate_project_selection(&self.registry, project_id) {
            Ok(p) => p,
            Err(e) => {
                return Err(e);
            },
        };
        self.active_project_id = next_project.project_id.clone();
        Ok(next_project.to_summary())
    }

    /// The id of the active project.
    pub fn active_project_id(&self) -> (r: &String)
        ensures
            r@ == self@.active_project_id,
    {
        &self.active_project_id
    }

    /// The file where the active project is remembered.
    pub fn active_state_path(&self) -> (r: &String)
        ensures
            r@ == self@.active_state_path,
    {
        &self.active_state_path
    }
}

} // verus!
