//! The registry of known projects and the checks on selecting and removing
//! one.
use vstd::prelude::*;
use crate::text::{blank, trim_text, trimmed};

verus! {

/// A project as shown to the presentation layer.
#[derive(Debug, Clone)]
pub struct ProjectSummary {
    pub project_id: String,
    pub display_name: String,
    pub root_path: String,
    pub docs_path: String,
    pub has_local_override: bool,
}

/// A registered project: its id, its name, its canonical root and the docs
/// directory under it.
#[derive(Debug, Clone)]
pub struct ProjectContext {
    pub project_id: String,
    pub display_name: String,
    pub root_path: String,
    pub docs_path: String,
    pub has_local_override: bool,
}

pub struct ProjectView {
    pub project_id: Seq<char>,
    pub display_name: Seq<char>,
    pub root_path: Seq<char>,
    pub docs_path: Seq<char>,
    pub has_local_override: bool,
}

impl View for ProjectContext {
    type V = ProjectView;

    open spec fn view(&self) -> ProjectView {
        ProjectView {
            project_id: self.project_id@,
            display_name: self.display_name@,
            root_path: self.root_path@,
            docs_path: self.docs_path@,
            has_local_override: self.has_local_override,
        }
    }
}

impl View for ProjectSummary {
    type V = ProjectView;

    open spec fn view(&self) -> ProjectView {
        ProjectView {
            project_id: self.project_id@,
            display_name: self.display_name@,
            root_path: self.root_path@,
            docs_path: self.docs_path@,
            has_local_override: self.has_local_override,
        }
    }
}

/// The known projects, and the project that the global configuration
/// prefers as active.
#[derive(Debug, Clone)]
pub struct ProjectRegistry {
    pub projects: Vec<ProjectContext>,
    pub preferred_active_project_id: Option<String>,
}

pub open spec fn projects_view(ps: Seq<ProjectContext>) -> Seq<ProjectView> {
    ps.map_values(|p: ProjectContext| p@)
}

/// Why a registry operation was refused.
#[derive(Debug, Clone, PartialEq, Eq)]
pub enum RegistryError {
    /// A required text field is blank.
    EmptyField { label: String },
    /// No registered project has the id.
    UnknownProject { project_id: String },
    /// The only registered project cannot be removed.
    LastProject,
    /// The active project cannot be removed.
    ActiveProject { project_id: String },
    /// A project id is empty.
    EmptyProjectId,
    /// A project id holds characters other than lowercase ASCII letters,
    /// digits, `-` and `_`.
    InvalidProjectId { project_id: String },
    /// Two projects share an id.
    DuplicateProjectId { project_id: String },
    /// Two projects share a root.
    DuplicateRootPath { root_path: String },
    /// A project root does not exist.
    MissingRoot { root_path: String },
    /// A project root is not a directory.
    RootNotDirectory { root_path: String },
    /// A project root could not be resolved to a canonical path.
    UnresolvableRoot { root_path: String },
    /// A project root has no docs directory.
    MissingDocs { root_path: String },
    /// The local override names a workspace that is not registered.
    WorkspaceNotRegistered { root_path: String },
    /// No project is registered at all.
    EmptyRegistry,
}

pub enum RegistryFault {
    EmptyField(Seq<char>),
    UnknownProject(Seq<char>),
    LastProject,
    ActiveProject(Seq<char>),
    EmptyProjectId,
    InvalidProjectId(Seq<char>),
    DuplicateProjectId(Seq<char>),
    DuplicateRootPath(Seq<char>),
    MissingRoot(Seq<char>),
    RootNotDirectory(Seq<char>),
    UnresolvableRoot(Seq<char>),
    MissingDocs(Seq<char>),
    WorkspaceNotRegistered(Seq<char>),
    EmptyRegistry,
}

impl View for RegistryError {
    type V = RegistryFault;

    open spec fn view(&self) -> RegistryFault {
        match self {
            RegistryError::EmptyField { label } => RegistryFault::EmptyField(label@),
            RegistryError::UnknownProject { project_id } => RegistryFault::UnknownProject(
                project_id@,
            ),
            RegistryError::LastProject => RegistryFault::LastProject,
            RegistryError::ActiveProject { project_id } => RegistryFault::ActiveProject(
                project_id@,
            ),
            RegistryError::EmptyProjectId => RegistryFault::EmptyProjectId,
            RegistryError::InvalidProjectId { project_id } => RegistryFault::InvalidProjectId(
                project_id@,
            ),
            RegistryError::DuplicateProjectId { project_id } => RegistryFault::DuplicateProjectId(
                project_id@,
            ),
            RegistryError::DuplicateRootPath { root_path } => RegistryFault::DuplicateRootPath(
                root_path@,
            ),
            RegistryError::MissingRoot { root_path } => RegistryFault::MissingRoot(root_path@),
            RegistryError::RootNotDirectory { root_path } => RegistryFault::RootNotDirectory(
                root_path@,
            ),
            RegistryError::UnresolvableRoot { root_path } => RegistryFault::UnresolvableRoot(
                root_path@,
            ),
            RegistryError::MissingDocs { root_path } => RegistryFault::MissingDocs(root_path@),
            RegistryError::WorkspaceNotRegistered { root_path } =>
                RegistryFault::WorkspaceNotRegistered(root_path@),
            RegistryError::EmptyRegistry => RegistryFault::EmptyRegistry,
        }
    }
}

/// Three texts one after the other.
pub fn join3(a: &str, b: &str, c: &str) -> (r: String)
    ensures
        r@ == a@ + b@ + c@,
{
    let mut r = String::from_str(a);
    r.append(b);
    r.append(c);
    r
}

/// The text shown to a user for an error.
pub open spec fn message_of(e: RegistryFault) -> Seq<char> {
    match e {
        RegistryFault::EmptyField(label) => "project registration failed: "@ + label
            + " must not be empty"@,
        RegistryFault::UnknownProject(id) => "project selection failed: unknown project_id '"@ + id
            + "'."@,
        RegistryFault::LastProject =>
            "project removal failed: cannot remove the last registered project."@,
        RegistryFault::ActiveProject(id) => "project removal failed: cannot remove active project '"@
            + id + "'; select another project first."@,
        RegistryFault::EmptyProjectId =>
            "project registration failed: project_id must not be empty"@,
        RegistryFault::InvalidProjectId(id) => "project registration failed: invalid project_id '"@
            + id + "'. Use lowercase letters, numbers, '-' or '_'."@,
        RegistryFault::DuplicateProjectId(id) =>
            "project registration failed: duplicate project_id '"@ + id + "'."@,
        RegistryFault::DuplicateRootPath(p) => "project registration failed: duplicate root path '"@
            + p + "'."@,
        RegistryFault::MissingRoot(p) => "project registration failed: root path does not exist: "@
            + p + ""@,
        RegistryFault::RootNotDirectory(p) =>
            "project registration failed: root path must be a directory: "@ + p + ""@,
        RegistryFault::UnresolvableRoot(p) =>
            "project registration failed: cannot resolve root path "@ + p + ""@,
        RegistryFault::MissingDocs(p) =>
            "project registration failed: docs directory does not exist under root path '"@ + p
            + "'."@,
        RegistryFault::WorkspaceNotRegistered(p) => "project registration failed: current workspace "@
            + p + " is not registered."@,
        RegistryFault::EmptyRegistry =>
            "project registry is empty; register at least one project"@,
    }
}

impl RegistryError {
    /// The text shown to a user for this error.
    pub fn message(&self) -> (r: String)
        ensures
            r@ == message_of(self@),
    {
        let r = match self {
            RegistryError::EmptyField { label } => join3(
                "project registration failed: ",
                label.as_str(),
                " must not be empty",
            ),
            RegistryError::UnknownProject { project_id } => join3(
                "project selection failed: unknown project_id '",
                project_id.as_str(),
                "'.",
            ),
            RegistryError::LastProject => String::from_str(
                "project removal failed: cannot remove the last registered project.",
            ),
            RegistryError::ActiveProject { project_id } => join3(
                "project removal failed: cannot remove active project '",
                project_id.as_str(),
                "'; select another project first.",
            ),
            RegistryError::EmptyProjectId => String::from_str(
                "project registration failed: project_id must not be empty",
            ),
            RegistryError::InvalidProjectId { project_id } => join3(
                "project registration failed: invalid project_id '",
                project_id.as_str(),
                "'. Use lowercase letters, numbers, '-' or '_'.",
            ),
            RegistryError::DuplicateProjectId { project_id } => join3(
                "project registration failed: duplicate project_id '",
                project_id.as_str(),
                "'.",
            ),
            RegistryError::DuplicateRootPath { root_path } => join3(
                "project registration failed: duplicate root path '",
                root_path.as_str(),
                "'.",
            ),
            RegistryError::MissingRoot { root_path } => join3(
                "project registration failed: root path does not exist: ",
                root_path.as_str(),
                "",
            ),
            RegistryError::RootNotDirectory { root_path } => join3(
                "project registration failed: root path must be a directory: ",
                root_path.as_str(),
                "",
            ),
            RegistryError::UnresolvableRoot { root_path } => join3(
                "project registration failed: cannot resolve root path ",
                root_path.as_str(),
                "",
            ),
            RegistryError::MissingDocs { root_path } => join3(
                "project registration failed: docs directory does not exist under root path '",
                root_path.as_str(),
                "'.",
            ),
            RegistryError::WorkspaceNotRegistered { root_path } => join3(
                "project registration failed: current workspace ",
                root_path.as_str(),
                " is not registered.",
            ),
            RegistryError::EmptyRegistry => String::from_str(
                "project registry is empty; register at least one project",
            ),
        };
        r
    }
}

impl ProjectContext {
    /// A copy with the same fields.
    pub fn duplicate(&self) -> (r: ProjectContext)
        ensures
            r@ == self@,
    {
        ProjectContext {
            project_id: self.project_id.clone(),
            display_name: self.display_name.clone(),
            root_path: self.root_path.clone(),
            docs_path: self.docs_path.clone(),
            has_local_override: self.has_local_override,
        }
    }

    /// The project as shown to the presentation layer.
    pub fn to_summary(&self) -> (r: ProjectSummary)
        ensures
            r@ == self@,
    {
        ProjectSummary {
            project_id: self.project_id.clone(),
            display_name: self.display_name.clone(),
            root_path: self.root_path.clone(),
            docs_path: self.docs_path.clone(),
            has_local_override: self.has_local_override,
        }
    }
}

/// Some project has the id.
pub open spec fn has_id(ps: Seq<ProjectView>, id: Seq<char>) -> bool {
    exists|i: int| 0 <= i < ps.len() && #[trigger] ps[i].project_id == id
}

/// The first project with the id.
pub open spec fn first_with_id(ps: Seq<ProjectView>, id: Seq<char>) -> int {
    choose|i: int|
        0 <= i < ps.len() && #[trigger] ps[i].project_id == id && forall|j: int|
            0 <= j < i ==> #[trigger] ps[j].project_id != id
}

/// What selecting a project by a raw id gives: the id is trimmed, must not
/// be blank, and must name a registered project (the first with that id).
pub open spec fn selection(ps: Seq<ProjectView>, raw: Seq<char>) -> Result<ProjectView, RegistryFault> {
    if blank(raw) {
        Err(RegistryFault::EmptyField("project_id"@))
    } else if !has_id(ps, trimmed(raw)) {
        Err(RegistryFault::UnknownProject(trimmed(raw)))
    } else {
        Ok(ps[first_with_id(ps, trimmed(raw))])
    }
}

/// What a removal check decides: both ids must select projects, more than
/// one project must be registered, and the removed project must not be the
/// active one.
pub open spec fn removal(ps: Seq<ProjectView>, active: Seq<char>, removed: Seq<char>) -> Result<
    (),
    RegistryFault,
> {
    match selection(ps, removed) {
        Err(e) => Err(e),
        Ok(r) => match selection(ps, active) {
            Err(e) => Err(e),
            Ok(a) => if ps.len() == 1 {
                Err(RegistryFault::LastProject)
            } else if r.project_id == a.project_id {
                Err(RegistryFault::ActiveProject(r.project_id))
            } else {
                Ok(())
            },
        },
    }
}

pub open spec fn context_result(r: Result<ProjectContext, RegistryError>) -> Result<
    ProjectView,
    RegistryFault,
> {
    match r {
        Ok(c) => Ok(c@),
        Err(e) => Err(e@),
    }
}

/// Trims a required text; a blank one is refused under its label.
pub fn normalize_required_text(value: &str, label: &str) -> (r: Result<String, RegistryError>)
    ensures
        blank(value@) ==> (r matches Err(e) && e@ == RegistryFault::EmptyField(label@)),
        !blank(value@) ==> (r matches Ok(s) && s@ == trimmed(value@)),
{
    let normalized = trim_text(value);
    if normalized.as_str().is_empty() {
        return Err(RegistryError::EmptyField { label: String::from_str(label) });
    }
    Ok(normalized)
}

pub(crate) fn position_of_id(projects: &Vec<ProjectContext>, id: &String) -> (r: Option<usize>)
    ensures
        match r {
            Some(i) => i < projects@.len() && i == first_with_id(projects_view(projects@), id@)
                && has_id(projects_view(projects@), id@) && projects_view(projects@)[i as int]
                == projects@[i as int]@,
            None => !has_id(projects_view(projects@), id@),
        },
{
    let ghost ps = projects_view(projects@);
    let mut i: usize = 0;
    while i < projects.len()
        invariant
            i <= projects@.len(),
            ps == projects_view(projects@),
            forall|j: int| 0 <= j < i ==> #[trigger] ps[j].project_id != id@,
        decreases projects@.len() - i,
    {
        if projects[i].project_id == *id {
            assert(ps[i as int].project_id == id@);
            assert(has_id(ps, id@));
            let ghost c = first_with_id(ps, id@);
            assert(c == i as int) by {
                if c < i as int {
                    assert(ps[c].project_id != id@);
                } else if c > i as int {
                    assert(ps[i as int].project_id != id@);
                }
            }
            return Some(i);
        }
        i += 1;
    }
    None
}

/// Whether some registered project has exactly this id.
pub fn has_project_id(registry: &ProjectRegistry, project_id: &str) -> (r: bool)
    ensures
        r == has_id(projects_view(registry.projects@), project_id@),
{
    let id = String::from_str(project_id);
    position_of_id(&registry.projects, &id).is_some()
}

/// Selects a registered project by id.
pub fn validate_project_selection(registry: &ProjectRegistry, project_id: &str) -> (r: Result<
    ProjectContext,
    RegistryError,
>)
    ensures
        context_result(r) == selection(projects_view(registry.projects@), project_id@),
{
    let normalized = match normalize_required_text(project_id, "project_id") {
        Ok(n) => n,
        Err(e) => {
            return Err(e);
        },
    };
    match position_of_id(&registry.projects, &normalized) {
        Some(i) => Ok(registry.projects[i].duplicate()),
        None => Err(RegistryError::UnknownProject { project_id: normalized }),
    }
}

/// Checks that a project may be removed while another is active.
pub fn validate_project_removal(
    registry: &ProjectRegistry,
    active_project_id: &str,
    removed_project_id: &str,
) -> (r: Result<(), RegistryError>)
    ensures
        match r {
            Ok(()) => removal(
                projects_view(registry.projects@),
                active_project_id@,
                removed_project_id@,
            ) is Ok,
            Err(e) => removal(
                projects_view(registry.projects@),
                active_project_id@,
                removed_project_id@,
            ) == Err::<(), RegistryFault>(e@),
        },
{
    let ghost ps = projects_view(registry.projects@);
    let removed_project = match validate_project_selection(registry, removed_project_id) {
        Ok(p) => p,
        Err(e) => {
            assert(selection(ps, removed_project_id@) == Err::<ProjectView, RegistryFault>(e@));
            return Err(e);
        },
    };
    assert(selection(ps, removed_project_id@) == Ok::<ProjectView, RegistryFault>(
        removed_project@,
    ));
    let active_project = match validate_project_selection(registry, active_project_id) {
        Ok(p) => p,
        Err(e) => {
            assert(selection(ps, active_project_id@) == Err::<ProjectView, RegistryFault>(e@));
            return Err(e);
        },
    };
    assert(selection(ps, active_project_id@) == Ok::<ProjectView, RegistryFault>(
        active_project@,
    ));
    if registry.projects.len() == 1 {
        return Err(RegistryError::LastProject);
    }
    if removed_project.project_id == active_project.project_id {
        return Err(RegistryError::ActiveProject { project_id: removed_project.project_id });
    }
    Ok(())
}

} // verus!
