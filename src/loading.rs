//! Building the registry from the global configuration, the current
//! workspace and its local override. The configuration files are read and
//! parsed by the caller, who also reports what the file system says of each
//! configured root.
use vstd::prelude::*;
use crate::naming::{
    default_display_name, default_project_id, derive_default_display_name,
    derive_default_project_id, join_path, joined_path, project_id_fault, texts_view,
    validate_project_id,
};
use crate::registry::{
    ProjectContext, ProjectRegistry, ProjectView, RegistryError, RegistryFault, has_id,
    normalize_required_text, position_of_id, projects_view,
};
use crate::naming::{lower_of, lowercase};
use crate::order::{lemma_text_le_total, text_le, text_precedes_or_equals};
use crate::text::{blank, normalize_optional_text, normalized_text, opt_text, trim_text, trimmed};

verus! {

/// The directory under a project root that holds its documents.
pub const DOCS_DIR_NAME: &'static str = "docs";

/// What the file system says of a configured root path.
#[derive(Debug, Clone)]
pub struct RootProbe {
    pub exists: bool,
    pub is_dir: bool,
    /// The canonical form of the path, where it can be resolved.
    pub canonical: Option<String>,
    /// Whether the canonical root holds a docs directory.
    pub docs_dir: bool,
}

pub struct ProbeView {
    pub exists: bool,
    pub is_dir: bool,
    pub canonical: Option<Seq<char>>,
    pub docs_dir: bool,
}

impl View for RootProbe {
    type V = ProbeView;

    open spec fn view(&self) -> ProbeView {
        ProbeView {
            exists: self.exists,
            is_dir: self.is_dir,
            canonical: opt_text(self.canonical),
            docs_dir: self.docs_dir,
        }
    }
}

impl RootProbe {
    pub fn duplicate(&self) -> (r: RootProbe)
        ensures
            r@ == self@,
    {
        RootProbe {
            exists: self.exists,
            is_dir: self.is_dir,
            canonical: match &self.canonical {
                Some(c) => Some(c.clone()),
                None => None,
            },
            docs_dir: self.docs_dir,
        }
    }
}

/// One `[projects.<id>]` table of the global configuration, with what the
/// file system says of its trimmed path.
#[derive(Debug, Clone)]
pub struct GlobalProjectEntry {
    pub project_id: String,
    pub path: String,
    pub display_name: Option<String>,
    pub probe: RootProbe,
}

/// The global configuration: the projects in key order, and the project
/// it prefers as active.
#[derive(Debug, Clone)]
pub struct GlobalConfig {
    pub projects: Vec<GlobalProjectEntry>,
    pub active_project_id: Option<String>,
}

/// The `[project]` table of a workspace's local configuration.
#[derive(Debug, Clone)]
pub struct LocalProjectOverride {
    pub id: Option<String>,
    pub display_name: Option<String>,
}

/// The current workspace: its canonical root, and whether it holds a docs
/// directory.
#[derive(Debug, Clone)]
pub struct CurrentWorkspace {
    pub root: String,
    pub docs_dir: bool,
}

/// A project before its checks.
#[derive(Debug, Clone)]
pub struct ProjectCandidate {
    pub project_id: String,
    pub display_name: Option<String>,
    pub root_path: String,
    pub has_local_override: bool,
    pub probe: RootProbe,
}

pub struct CandidateView {
    pub project_id: Seq<char>,
    pub display_name: Option<Seq<char>>,
    pub root_path: Seq<char>,
    pub has_local_override: bool,
    pub probe: ProbeView,
}

impl View for ProjectCandidate {
    type V = CandidateView;

    open spec fn view(&self) -> CandidateView {
        CandidateView {
            project_id: self.project_id@,
            display_name: opt_text(self.display_name),
            root_path: self.root_path@,
            has_local_override: self.has_local_override,
            probe: self.probe@,
        }
    }
}

pub open spec fn candidates_view(cs: Seq<ProjectCandidate>) -> Seq<CandidateView> {
    cs.map_values(|c: ProjectCandidate| c@)
}

/// The candidate that one global entry gives, or the fault of a blank key.
pub open spec fn entry_candidate(e: GlobalProjectEntry) -> Result<CandidateView, RegistryFault> {
    if blank(e.project_id@) {
        Err(RegistryFault::EmptyField("project_id"@))
    } else {
        Ok(
            CandidateView {
                project_id: trimmed(e.project_id@),
                display_name: normalized_text(opt_text(e.display_name)),
                root_path: trimmed(e.path@),
                has_local_override: false,
                probe: e.probe@,
            },
        )
    }
}

/// The candidates of the first `k` global entries, stopping at the first
/// fault.
pub open spec fn entry_candidates(es: Seq<GlobalProjectEntry>, k: nat) -> Result<
    Seq<CandidateView>,
    RegistryFault,
>
    decreases k,
{
    if k == 0 {
        Ok(Seq::empty())
    } else {
        match entry_candidates(es, (k - 1) as nat) {
            Err(e) => Err(e),
            Ok(prev) => match entry_candidate(es[k - 1]) {
                Err(e) => Err(e),
                Ok(c) => Ok(prev.push(c)),
            },
        }
    }
}

/// A candidate whose root resolves to the given canonical path.
pub open spec fn resolves_to(c: CandidateView, root: Seq<char>) -> bool {
    c.probe.canonical == Some(root)
}

/// Some candidate resolves to the root.
pub open spec fn registers(cs: Seq<CandidateView>, root: Seq<char>) -> bool {
    exists|i: int| 0 <= i < cs.len() && resolves_to(#[trigger] cs[i], root)
}

/// The first candidate that resolves to the root.
pub open spec fn first_registering(cs: Seq<CandidateView>, root: Seq<char>) -> int {
    choose|i: int|
        0 <= i < cs.len() && resolves_to(#[trigger] cs[i], root) && forall|j: int|
            0 <= j < i ==> !resolves_to(#[trigger] cs[j], root)
}

/// The candidate added for the current workspace when no configured
/// project resolves to it.
pub open spec fn current_candidate(cs: Seq<CandidateView>, current: CurrentWorkspace) -> CandidateView {
    CandidateView {
        project_id: default_project_id(current.root@, cs.map_values(|c: CandidateView| c.project_id)),
        display_name: Some(default_display_name(current.root@)),
        root_path: current.root@,
        has_local_override: false,
        probe: ProbeView {
            exists: true,
            is_dir: true,
            canonical: Some(current.root@),
            docs_dir: current.docs_dir,
        },
    }
}

/// The candidates with the current workspace registered.
pub open spec fn with_current(cs: Seq<CandidateView>, current: CurrentWorkspace) -> Seq<CandidateView> {
    if registers(cs, current.root@) {
        cs
    } else {
        cs.push(current_candidate(cs, current))
    }
}

/// The candidates after the local override is applied to the first one that
/// resolves to the current workspace.
pub open spec fn with_override(
    cs: Seq<CandidateView>,
    current: Seq<char>,
    local: Option<LocalProjectOverride>,
) -> Result<Seq<CandidateView>, RegistryFault> {
    match local {
        None => Ok(cs),
        Some(o) => if !registers(cs, current) {
            Err(RegistryFault::WorkspaceNotRegistered(current))
        } else {
            let i = first_registering(cs, current);
            Ok(cs.update(i, overridden(cs[i], o)))
        },
    }
}

/// One candidate checked against the projects accepted before it.
pub open spec fn candidate_step(prev: Seq<ProjectView>, c: CandidateView) -> Result<
    ProjectView,
    RegistryFault,
> {
    if project_id_fault(c.project_id) is Some {
        Err(project_id_fault(c.project_id)->Some_0)
    } else if !c.probe.exists {
        Err(RegistryFault::MissingRoot(c.root_path))
    } else if !c.probe.is_dir {
        Err(RegistryFault::RootNotDirectory(c.root_path))
    } else if c.probe.canonical is None {
        Err(RegistryFault::UnresolvableRoot(c.root_path))
    } else {
        let root = c.probe.canonical->Some_0;
        if has_id(prev, c.project_id) {
            Err(RegistryFault::DuplicateProjectId(c.project_id))
        } else if exists|j: int| 0 <= j < prev.len() && #[trigger] prev[j].root_path == root {
            Err(RegistryFault::DuplicateRootPath(root))
        } else if !c.probe.docs_dir {
            Err(RegistryFault::MissingDocs(root))
        } else {
            Ok(
                ProjectView {
                    project_id: c.project_id,
                    display_name: match c.display_name {
                        Some(n) => n,
                        None => default_display_name(root),
                    },
                    root_path: root,
                    docs_path: joined_path(root, DOCS_DIR_NAME@),
                    has_local_override: c.has_local_override,
                },
            )
        }
    }
}

/// The first `k` candidates checked in order, stopping at the first fault.
pub open spec fn checked_candidates(cs: Seq<CandidateView>, k: nat) -> Result<
    Seq<ProjectView>,
    RegistryFault,
>
    decreases k,
{
    if k == 0 {
        Ok(Seq::empty())
    } else {
        match checked_candidates(cs, (k - 1) as nat) {
            Err(e) => Err(e),
            Ok(prev) => match candidate_step(prev, cs[k - 1]) {
                Err(e) => Err(e),
                Ok(p) => Ok(prev.push(p)),
            },
        }
    }
}

proof fn lemma_entry_fault_persists(es: Seq<GlobalProjectEntry>, k: nat, m: nat)
    requires
        k <= m,
        entry_candidates(es, k) is Err,
    ensures
        entry_candidates(es, m) == entry_candidates(es, k),
    decreases m - k,
{
    if k < m {
        lemma_entry_fault_persists(es, k, (m - 1) as nat);
    }
}

proof fn lemma_check_fault_persists(cs: Seq<CandidateView>, k: nat, m: nat)
    requires
        k <= m,
        checked_candidates(cs, k) is Err,
    ensures
        checked_candidates(cs, m) == checked_candidates(cs, k),
    decreases m - k,
{
    if k < m {
        lemma_check_fault_persists(cs, k, (m - 1) as nat);
    }
}

/// The candidates that the global configuration lists, in key order.
pub fn global_project_candidates(global: &GlobalConfig) -> (r: Result<
    Vec<ProjectCandidate>,
    RegistryError,
>)
    ensures
        match r {
            Ok(cs) => entry_candidates(global.projects@, global.projects@.len()) == Ok::<
                Seq<CandidateView>,
                RegistryFault,
            >(candidates_view(cs@)),
            Err(e) => entry_candidates(global.projects@, global.projects@.len()) == Err::<
                Seq<CandidateView>,
                RegistryFault,
            >(e@),
        },
{
    let ghost es = global.projects@;
    let mut candidates: Vec<ProjectCandidate> = Vec::new();
    assert(candidates_view(candidates@) =~= Seq::<CandidateView>::empty());
    let mut i: usize = 0;
    while i < global.projects.len()
        invariant
            es == global.projects@,
            i <= es.len(),
            entry_candidates(es, i as nat) == Ok::<Seq<CandidateView>, RegistryFault>(
                candidates_view(candidates@),
            ),
        decreases es.len() - i,
    {
        let entry = &global.projects[i];
        let project_id = match normalize_required_text(entry.project_id.as_str(), "project_id") {
            Ok(id) => id,
            Err(e) => {
                proof {
                    lemma_entry_fault_persists(es, (i + 1) as nat, es.len());
                }
                return Err(e);
            },
        };
        let display = match &entry.display_name {
            Some(d) => Some(d.clone()),
            None => None,
        };
        let candidate = ProjectCandidate {
            project_id,
            display_name: normalize_optional_text(display),
            root_path: trim_text(entry.path.as_str()),
            has_local_override: false,
            probe: entry.probe.duplicate(),
        };
        let ghost before = candidates@;
        candidates.push(candidate);
        assert(candidates_view(candidates@) =~= candidates_view(before).push(candidate@));
        i += 1;
    }
    Ok(candidates)
}

fn first_resolving(candidates: &Vec<ProjectCandidate>, root: &String) -> (r: Option<usize>)
    ensures
        match r {
            Some(i) => i < candidates@.len() && registers(candidates_view(candidates@), root@)
                && i == first_registering(candidates_view(candidates@), root@),
            None => !registers(candidates_view(candidates@), root@),
        },
{
    let ghost cs = candidates_view(candidates@);
    let mut i: usize = 0;
    while i < candidates.len()
        invariant
            cs == candidates_view(candidates@),
            i <= candidates@.len(),
            forall|j: int| 0 <= j < i ==> !resolves_to(#[trigger] cs[j], root@),
        decreases candidates@.len() - i,
    {
        let hit = match &candidates[i].probe.canonical {
            Some(c) => *c == *root,
            None => false,
        };
        assert(cs[i as int] == candidates@[i as int]@);
        if hit {
            assert(resolves_to(cs[i as int], root@));
            let ghost f = first_registering(cs, root@);
            assert(f == i as int) by {
                if f < i as int {
                    assert(!resolves_to(cs[f], root@));
                } else if f > i as int {
                    assert(!resolves_to(cs[i as int], root@));
                }
            }
            return Some(i);
        }
        i += 1;
    }
    None
}

/// Registers the current workspace as a project when no configured project
/// resolves to it, with an id derived from its root and unique among the
/// candidates.
pub fn ensure_current_project_candidate(
    candidates: &mut Vec<ProjectCandidate>,
    current: &CurrentWorkspace,
)
    ensures
        candidates_view(final(candidates)@) == with_current(candidates_view(old(candidates)@), *current),
{
    let ghost cs = candidates_view(candidates@);
    if first_resolving(candidates, &current.root).is_some() {
        return;
    }
    let mut existing_ids: Vec<String> = Vec::new();
    let mut i: usize = 0;
    while i < candidates.len()
        invariant
            cs == candidates_view(candidates@),
            i <= candidates@.len(),
            existing_ids@.len() == i,
            forall|k: int| 0 <= k < i ==> #[trigger] existing_ids@[k]@ == cs[k].project_id,
        decreases candidates@.len() - i,
    {
        existing_ids.push(candidates[i].project_id.clone());
        i += 1;
    }
    assert(texts_view(existing_ids@) =~= cs.map_values(|c: CandidateView| c.project_id));
    let candidate = ProjectCandidate {
        project_id: derive_default_project_id(current.root.as_str(), &existing_ids),
        display_name: Some(derive_default_display_name(current.root.as_str())),
        root_path: current.root.clone(),
        has_local_override: false,
        probe: RootProbe {
            exists: true,
            is_dir: true,
            canonical: Some(current.root.clone()),
            docs_dir: current.docs_dir,
        },
    };
    candidates.push(candidate);
    assert(candidates_view(candidates@) =~= cs.push(current_candidate(cs, *current)));
}

/// A candidate with the override's non-blank id and name applied.
pub open spec fn overridden(c: CandidateView, o: LocalProjectOverride) -> CandidateView {
    CandidateView {
        project_id: match normalized_text(opt_text(o.id)) {
            Some(id) => id,
            None => c.project_id,
        },
        display_name: match normalized_text(opt_text(o.display_name)) {
            Some(n) => Some(n),
            None => c.display_name,
        },
        has_local_override: true,
        ..c
    }
}

fn apply_override_to(current: &mut ProjectCandidate, project_override: &LocalProjectOverride)
    ensures
        final(current)@ == overridden(old(current)@, *project_override),
{
    let local_id = normalize_optional_text(
        match &project_override.id {
            Some(v) => Some(v.clone()),
            None => None,
        },
    );
    let local_name = normalize_optional_text(
        match &project_override.display_name {
            Some(v) => Some(v.clone()),
            None => None,
        },
    );
    if let Some(id) = local_id {
        current.project_id = id;
    }
    if let Some(name) = local_name {
        current.display_name = Some(name);
    }
    current.has_local_override = true;
}

/// Applies the local override to the candidate of the current workspace.
pub fn apply_local_override(
    candidates: &mut Vec<ProjectCandidate>,
    current_workspace_root: &String,
    local: &Option<LocalProjectOverride>,
) -> (r: Result<(), RegistryError>)
    ensures
        match r {
            Ok(()) => with_override(
                candidates_view(old(candidates)@),
                current_workspace_root@,
                *local,
            ) == Ok::<Seq<CandidateView>, RegistryFault>(candidates_view(final(candidates)@)),
            Err(e) => with_override(
                candidates_view(old(candidates)@),
                current_workspace_root@,
                *local,
            ) == Err::<Seq<CandidateView>, RegistryFault>(e@),
        },
{
    let ghost cs = candidates_view(candidates@);
    let project_override = match local {
        Some(o) => o,
        None => {
            return Ok(());
        },
    };
    let i = match first_resolving(candidates, current_workspace_root) {
        Some(i) => i,
        None => {
            let e = RegistryError::WorkspaceNotRegistered {
                root_path: current_workspace_root.clone(),
            };
            assert(e@ == RegistryFault::WorkspaceNotRegistered(current_workspace_root@));
            return Err(e);
        },
    };
    let ghost old_c = candidates@;
    let mut current = candidates.remove(i);
    assert(current@ == cs[i as int]);
    apply_override_to(&mut current, project_override);
    candidates.insert(i, current);
    proof {
        assert(candidates@ =~= old_c.update(i as int, current));
        assert(candidates_view(candidates@) =~= cs.update(i as int, current@));
        assert(with_override(cs, current_workspace_root@, *local) == Ok::<
            Seq<CandidateView>,
            RegistryFault,
        >(cs.update(i as int, overridden(cs[i as int], *project_override))));
    }
    Ok(())
}

/// Resolves a configured root: it must exist, be a directory, and resolve
/// to a canonical path.
pub fn canonicalize_project_root(root_path: &String, probe: &RootProbe) -> (r: Result<
    String,
    RegistryError,
>)
    ensures
        !probe.exists ==> (r matches Err(e) && e@ == RegistryFault::MissingRoot(root_path@)),
        probe.exists && !probe.is_dir ==> (r matches Err(e) && e@ == RegistryFault::RootNotDirectory(
            root_path@,
        )),
        probe.exists && probe.is_dir && probe.canonical is None ==> (r matches Err(e) && e@
            == RegistryFault::UnresolvableRoot(root_path@)),
        probe.exists && probe.is_dir && probe.canonical is Some ==> (r matches Ok(c) && c@
            == probe.canonical->Some_0@),
{
    if !probe.exists {
        return Err(RegistryError::MissingRoot { root_path: root_path.clone() });
    }
    if !probe.is_dir {
        return Err(RegistryError::RootNotDirectory { root_path: root_path.clone() });
    }
    match &probe.canonical {
        Some(c) => Ok(c.clone()),
        None => Err(RegistryError::UnresolvableRoot { root_path: root_path.clone() }),
    }
}

/// Projects are listed by lowercased name, then by id.
pub open spec fn key_le(a: ProjectView, b: ProjectView) -> bool {
    if lower_of(a.display_name) == lower_of(b.display_name) {
        text_le(a.project_id, b.project_id)
    } else {
        text_le(lower_of(a.display_name), lower_of(b.display_name))
    }
}

/// Each project sorts before or equal to the next.
pub open spec fn sorted_by_name(ps: Seq<ProjectView>) -> bool {
    forall|i: int| 0 <= i < ps.len() - 1 ==> key_le(#[trigger] ps[i], ps[i + 1])
}

proof fn lemma_key_total(a: ProjectView, b: ProjectView)
    ensures
        key_le(a, b) || key_le(b, a),
{
    lemma_text_le_total(a.project_id, b.project_id);
    lemma_text_le_total(lower_of(a.display_name), lower_of(b.display_name));
}

fn key_precedes_or_equals(a: &ProjectContext, b: &ProjectContext) -> (r: bool)
    ensures
        r == key_le(a@, b@),
{
    let la = lowercase(a.display_name.as_str());
    let lb = lowercase(b.display_name.as_str());
    if la == lb {
        text_precedes_or_equals(a.project_id.as_str(), b.project_id.as_str())
    } else {
        text_precedes_or_equals(la.as_str(), lb.as_str())
    }
}

fn sort_by_name(projects: Vec<ProjectContext>) -> (r: Vec<ProjectContext>)
    ensures
        projects_view(r@).to_multiset() == projects_view(projects@).to_multiset(),
        sorted_by_name(projects_view(r@)),
{
    broadcast use vstd::seq_lib::group_to_multiset_ensures;

    let ghost src = projects_view(projects@);
    let mut out: Vec<ProjectContext> = Vec::new();
    let mut i: usize = 0;
    assert(src.take(0) =~= Seq::<ProjectView>::empty());
    assert(projects_view(out@) =~= Seq::<ProjectView>::empty());
    while i < projects.len()
        invariant
            src == projects_view(projects@),
            i <= projects@.len(),
            projects_view(out@).to_multiset() == src.take(i as int).to_multiset(),
            sorted_by_name(projects_view(out@)),
        decreases projects@.len() - i,
    {
        let x = projects[i].duplicate();
        let ghost ov = projects_view(out@);
        let mut p = out.len();
        while p > 0 && !key_precedes_or_equals(&out[p - 1], &x)
            invariant
                p <= out@.len(),
                ov == projects_view(out@),
                p < out@.len() ==> !key_le(ov[p as int], x@),
            decreases p,
        {
            p -= 1;
        }
        proof {
            if p < out@.len() {
                lemma_key_total(ov[p as int], x@);
            }
        }
        out.insert(p, x);
        proof {
            let nv = projects_view(out@);
            assert(nv =~= ov.insert(p as int, x@));
            assert(src.take(i + 1) =~= src.take(i as int).push(src[i as int]));
            assert(src[i as int] == x@);
            vstd::seq_lib::to_multiset_insert(ov, p as int, x@);
            vstd::seq_lib::to_multiset_build(src.take(i as int), x@);
            assert forall|k: int| 0 <= k < nv.len() - 1 implies key_le(#[trigger] nv[k], nv[k + 1]) by {
                if k + 1 < p {
                    assert(nv[k] == ov[k] && nv[k + 1] == ov[k + 1]);
                } else if k + 1 == p {
                    assert(nv[k] == ov[k]);
                } else if k == p {
                    assert(nv[k + 1] == ov[k]);
                } else {
                    assert(nv[k] == ov[k - 1] && nv[k + 1] == ov[k]);
                }
            }
        }
        i += 1;
    }
    assert(src.take(i as int) =~= src);
    out
}

/// Checks the candidates in order (valid id, resolvable root, no repeated
/// id or root, a docs directory), fills in default names and the docs
/// path, and sorts the projects by lowercased name, then id.
pub fn validate_project_candidates(candidates: Vec<ProjectCandidate>) -> (r: Result<
    Vec<ProjectContext>,
    RegistryError,
>)
    ensures
        match r {
            Ok(ps) => checked_candidates(candidates_view(candidates@), candidates@.len()) is Ok
                && projects_view(ps@).to_multiset() == checked_candidates(
                candidates_view(candidates@),
                candidates@.len(),
            )->Ok_0.to_multiset() && sorted_by_name(projects_view(ps@)),
            Err(e) => checked_candidates(candidates_view(candidates@), candidates@.len()) == Err::<
                Seq<ProjectView>,
                RegistryFault,
            >(e@),
        },
{
    let ghost cs = candidates_view(candidates@);
    let n = candidates.len();
    let mut projects: Vec<ProjectContext> = Vec::new();
    assert(projects_view(projects@) =~= Seq::<ProjectView>::empty());
    let mut i: usize = 0;
    while i < n
        invariant
            n == candidates@.len(),
            cs == candidates_view(candidates@),
            i <= n,
            checked_candidates(cs, i as nat) == Ok::<Seq<ProjectView>, RegistryFault>(
                projects_view(projects@),
            ),
        decreases n - i,
    {
        let candidate = &candidates[i];
        let ghost c = cs[i as int];
        let ghost prev = projects_view(projects@);
        assert(c == candidate@);
        match validate_project_id(candidate.project_id.as_str()) {
            Ok(()) => {},
            Err(e) => {
                proof {
                    lemma_check_fault_persists(cs, (i + 1) as nat, n as nat);
                }
                return Err(e);
            },
        }
        let root_path = match canonicalize_project_root(&candidate.root_path, &candidate.probe) {
            Ok(r) => r,
            Err(e) => {
                proof {
                    lemma_check_fault_persists(cs, (i + 1) as nat, n as nat);
                }
                return Err(e);
            },
        };
        if position_of_id(&projects, &candidate.project_id).is_some() {
            proof {
                lemma_check_fault_persists(cs, (i + 1) as nat, n as nat);
            }
            return Err(
                RegistryError::DuplicateProjectId { project_id: candidate.project_id.clone() },
            );
        }
        let mut j: usize = 0;
        while j < projects.len()
            invariant
                prev == projects_view(projects@),
                j <= projects@.len(),
                i < n,
                n == candidates@.len(),
                cs == candidates_view(candidates@),
                c == cs[i as int],
                checked_candidates(cs, i as nat) == Ok::<Seq<ProjectView>, RegistryFault>(prev),
                project_id_fault(c.project_id) is None,
                c.probe.exists && c.probe.is_dir && c.probe.canonical == Some(root_path@),
                !has_id(prev, c.project_id),
                forall|k: int| 0 <= k < j ==> #[trigger] prev[k].root_path != root_path@,
            decreases projects@.len() - j,
        {
            if projects[j].root_path == root_path {
                assert(prev[j as int].root_path == root_path@);
                proof {
                    lemma_check_fault_persists(cs, (i + 1) as nat, n as nat);
                }
                return Err(RegistryError::DuplicateRootPath { root_path });
            }
            j += 1;
        }
        if !candidate.probe.docs_dir {
            proof {
                lemma_check_fault_persists(cs, (i + 1) as nat, n as nat);
            }
            return Err(RegistryError::MissingDocs { root_path });
        }
        let display_name = match &candidate.display_name {
            Some(d) => d.clone(),
            None => derive_default_display_name(root_path.as_str()),
        };
        let docs_path = join_path(root_path.as_str(), DOCS_DIR_NAME);
        let project = ProjectContext {
            project_id: candidate.project_id.clone(),
            display_name,
            root_path,
            docs_path,
            has_local_override: candidate.has_local_override,
        };
        projects.push(project);
        assert(projects_view(projects@) =~= prev.push(project@));
        i += 1;
    }
    Ok(sort_by_name(projects))
}

/// The candidates once the current workspace is registered and the local
/// override applied.
pub open spec fn merged_candidates(
    global: GlobalConfig,
    current: CurrentWorkspace,
    local: Option<LocalProjectOverride>,
) -> Result<Seq<CandidateView>, RegistryFault> {
    match entry_candidates(global.projects@, global.projects@.len()) {
        Err(e) => Err(e),
        Ok(cs) => with_override(with_current(cs, current), current.root@, local),
    }
}

/// The projects of the registry before sorting, or the first fault.
pub open spec fn registry_projects(
    global: GlobalConfig,
    current: CurrentWorkspace,
    local: Option<LocalProjectOverride>,
) -> Result<Seq<ProjectView>, RegistryFault> {
    match merged_candidates(global, current, local) {
        Err(e) => Err(e),
        Ok(cs) => checked_candidates(cs, cs.len()),
    }
}

/// Builds the registry: the projects of the global configuration, the
/// current workspace registered if no project resolves to it, the local
/// override applied to it, every project checked, sorted by name; and the
/// global configuration's preferred active project.
pub fn load_project_registry_from_paths(
    current: &CurrentWorkspace,
    global: &GlobalConfig,
    local: &Option<LocalProjectOverride>,
) -> (r: Result<ProjectRegistry, RegistryError>)
    ensures
        match r {
            Ok(reg) => {
                &&& registry_projects(*global, *current, *local) is Ok
                &&& projects_view(reg.projects@).to_multiset() == registry_projects(
                    *global,
                    *current,
                    *local,
                )->Ok_0.to_multiset()
                &&& sorted_by_name(projects_view(reg.projects@))
                &&& opt_text(reg.preferred_active_project_id) == normalized_text(
                    opt_text(global.active_project_id),
                )
            },
            Err(e) => registry_projects(*global, *current, *local) == Err::<
                Seq<ProjectView>,
                RegistryFault,
            >(e@),
        },
{
    let mut candidates = match global_project_candidates(global) {
        Ok(cs) => cs,
        Err(e) => {
            return Err(e);
        },
    };
    ensure_current_project_candidate(&mut candidates, current);
    match apply_local_override(&mut candidates, &current.root, local) {
        Ok(()) => {},
        Err(e) => {
            return Err(e);
        },
    }
    let projects = match validate_project_candidates(candidates) {
        Ok(ps) => ps,
        Err(e) => {
            return Err(e);
        },
    };
    let preferred_active_project_id = normalize_optional_text(
        match &global.active_project_id {
            Some(v) => Some(v.clone()),
            None => None,
        },
    );
    Ok(ProjectRegistry { projects, preferred_active_project_id })
}

/// What registering a new root decides: the trimmed path must not be
/// blank, must resolve, must not be registered already, and must hold a
/// docs directory; the project then gets a derived id and name.
pub open spec fn registration(ps: Seq<ProjectView>, raw: Seq<char>, probe: ProbeView) -> Result<
    ProjectView,
    RegistryFault,
> {
    if blank(raw) {
        Err(RegistryFault::EmptyField("root_path"@))
    } else if !probe.exists {
        Err(RegistryFault::MissingRoot(trimmed(raw)))
    } else if !probe.is_dir {
        Err(RegistryFault::RootNotDirectory(trimmed(raw)))
    } else if probe.canonical is None {
        Err(RegistryFault::UnresolvableRoot(trimmed(raw)))
    } else {
        let root = probe.canonical->Some_0;
        if exists|j: int| 0 <= j < ps.len() && #[trigger] ps[j].root_path == root {
            Err(RegistryFault::DuplicateRootPath(root))
        } else if !probe.docs_dir {
            Err(RegistryFault::MissingDocs(root))
        } else {
            Ok(
                ProjectView {
                    project_id: default_project_id(root, ps.map_values(|p: ProjectView| p.project_id)),
                    display_name: default_display_name(root),
                    root_path: root,
                    docs_path: joined_path(root, DOCS_DIR_NAME@),
                    has_local_override: false,
                },
            )
        }
    }
}

/// The project that registering `root_path` would add; `probe` is what the
/// file system says of the trimmed path.
pub fn build_project_registration_candidate(
    registry: &ProjectRegistry,
    root_path: &str,
    probe: &RootProbe,
) -> (r: Result<ProjectContext, RegistryError>)
    ensures
        match r {
            Ok(c) => registration(projects_view(registry.projects@), root_path@, probe@) == Ok::<
                ProjectView,
                RegistryFault,
            >(c@),
            Err(e) => registration(projects_view(registry.projects@), root_path@, probe@) == Err::<
                ProjectView,
                RegistryFault,
            >(e@),
        },
{
    let ghost ps = projects_view(registry.projects@);
    let normalized_root_path = match normalize_required_text(root_path, "root_path") {
        Ok(p) => p,
        Err(e) => {
            return Err(e);
        },
    };
    let canonical_root_path = match canonicalize_project_root(&normalized_root_path, probe) {
        Ok(c) => c,
        Err(e) => {
            return Err(e);
        },
    };
    let mut j: usize = 0;
    while j < registry.projects.len()
        invariant
            ps == projects_view(registry.projects@),
            j <= registry.projects@.len(),
            forall|k: int| 0 <= k < j ==> #[trigger] ps[k].root_path != canonical_root_path@,
            !blank(root_path@),
            probe.exists && probe.is_dir,
            probe@.canonical == Some(canonical_root_path@),
        decreases registry.projects@.len() - j,
    {
        if registry.projects[j].root_path == canonical_root_path {
            assert(ps[j as int].root_path == canonical_root_path@);
            return Err(RegistryError::DuplicateRootPath { root_path: canonical_root_path });
        }
        j += 1;
    }
    if !probe.docs_dir {
        return Err(RegistryError::MissingDocs { root_path: canonical_root_path });
    }
    let mut existing_ids: Vec<String> = Vec::new();
    let mut i: usize = 0;
    while i < registry.projects.len()
        invariant
            ps == projects_view(registry.projects@),
            i <= registry.projects@.len(),
            existing_ids@.len() == i,
            forall|k: int| 0 <= k < i ==> #[trigger] existing_ids@[k]@ == ps[k].project_id,
        decreases registry.projects@.len() - i,
    {
        existing_ids.push(registry.projects[i].project_id.clone());
        i += 1;
    }
    assert(texts_view(existing_ids@) =~= ps.map_values(|p: ProjectView| p.project_id));
    let project_id = derive_default_project_id(canonical_root_path.as_str(), &existing_ids);
    let display_name = derive_default_display_name(canonical_root_path.as_str());
    let docs_path = join_path(canonical_root_path.as_str(), DOCS_DIR_NAME);
    Ok(
        ProjectContext {
            project_id,
            display_name,
            root_path: canonical_root_path,
            docs_path,
            has_local_override: false,
        },
    )
}

} // verus!
