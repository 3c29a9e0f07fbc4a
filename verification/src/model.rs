//! The tables of a Dopper database as abstract rows, the constraints of the
//! schema, and every change and query the store makes, as spec functions.

use vstd::prelude::*;

use crate::paths::{spec_path_clean, spec_path_parent};
use crate::seq_facts::{lemma_filter_elements, lemma_filter_pairwise, lemma_push_pairwise, pairwise};

verus! {

// ---------------------------------------------------------------------------
// Rows
// ---------------------------------------------------------------------------

/// A project: a namespace for environments and secrets.
#[derive(Debug)]
pub struct Project {
    pub id: String,
    pub name: String,
    pub created_at: String,
}

/// An environment (`dev`, `prod`, ...) of a project.
#[derive(Debug)]
pub struct Environment {
    pub id: String,
    pub project_id: String,
    pub slug: String,
}

/// A secret as it is handed out: a key and its value.
#[derive(Debug)]
pub struct Secret {
    pub key: String,
    pub value: String,
}

/// A row of the secrets table: a secret together with its environment.
#[derive(Debug)]
pub struct SecretRecord {
    pub env_id: String,
    pub key: String,
    pub value: String,
}

/// A row of the directory links table: a directory bound to a project.
#[derive(Debug)]
pub struct DirectoryLink {
    pub path: String,
    pub project_id: String,
}

/// A row of the active states table: the active environment of a project.
#[derive(Debug)]
pub struct ActiveState {
    pub project_id: String,
    pub active_slug: String,
}

/// Abstract project row.
#[verifier::ext_equal]
pub struct ProjectRow {
    pub id: Seq<char>,
    pub name: Seq<char>,
    pub created_at: Seq<char>,
}

/// Abstract environment row.
#[verifier::ext_equal]
pub struct EnvRow {
    pub id: Seq<char>,
    pub project_id: Seq<char>,
    pub slug: Seq<char>,
}

/// Abstract secret row.
#[verifier::ext_equal]
pub struct SecretRow {
    pub env_id: Seq<char>,
    pub key: Seq<char>,
    pub value: Seq<char>,
}

/// Abstract directory link row.
#[verifier::ext_equal]
pub struct LinkRow {
    pub path: Seq<char>,
    pub project_id: Seq<char>,
}

/// Abstract active state row.
#[verifier::ext_equal]
pub struct ActiveRow {
    pub project_id: Seq<char>,
    pub slug: Seq<char>,
}

impl View for Project {
    type V = ProjectRow;

    open spec fn view(&self) -> ProjectRow {
        ProjectRow { id: self.id@, name: self.name@, created_at: self.created_at@ }
    }
}

impl View for Environment {
    type V = EnvRow;

    open spec fn view(&self) -> EnvRow {
        EnvRow { id: self.id@, project_id: self.project_id@, slug: self.slug@ }
    }
}

impl View for Secret {
    type V = (Seq<char>, Seq<char>);

    open spec fn view(&self) -> (Seq<char>, Seq<char>) {
        (self.key@, self.value@)
    }
}

impl View for SecretRecord {
    type V = SecretRow;

    open spec fn view(&self) -> SecretRow {
        SecretRow { env_id: self.env_id@, key: self.key@, value: self.value@ }
    }
}

impl View for DirectoryLink {
    type V = LinkRow;

    open spec fn view(&self) -> LinkRow {
        LinkRow { path: self.path@, project_id: self.project_id@ }
    }
}

impl View for ActiveState {
    type V = ActiveRow;

    open spec fn view(&self) -> ActiveRow {
        ActiveRow { project_id: self.project_id@, slug: self.active_slug@ }
    }
}

pub open spec fn project_rows(v: Seq<Project>) -> Seq<ProjectRow> {
    v.map_values(|p: Project| p@)
}

pub open spec fn env_rows(v: Seq<Environment>) -> Seq<EnvRow> {
    v.map_values(|e: Environment| e@)
}

pub open spec fn secret_rows(v: Seq<SecretRecord>) -> Seq<SecretRow> {
    v.map_values(|s: SecretRecord| s@)
}

pub open spec fn link_rows(v: Seq<DirectoryLink>) -> Seq<LinkRow> {
    v.map_values(|l: DirectoryLink| l@)
}

pub open spec fn active_rows(v: Seq<ActiveState>) -> Seq<ActiveRow> {
    v.map_values(|a: ActiveState| a@)
}

pub open spec fn secret_pairs(v: Seq<Secret>) -> Seq<(Seq<char>, Seq<char>)> {
    v.map_values(|s: Secret| s@)
}

fn copy_string(s: &String) -> (r: String)
    ensures
        r == *s,
        r@ == s@,
{
    s.clone()
}

impl Project {
    /// A copy of this project.
    pub fn duplicate(&self) -> (r: Project)
        ensures
            r@ == self@,
    {
        Project {
            id: copy_string(&self.id),
            name: copy_string(&self.name),
            created_at: copy_string(&self.created_at),
        }
    }
}

impl Environment {
    /// A copy of this environment.
    pub fn duplicate(&self) -> (r: Environment)
        ensures
            r@ == self@,
    {
        Environment {
            id: copy_string(&self.id),
            project_id: copy_string(&self.project_id),
            slug: copy_string(&self.slug),
        }
    }
}

impl SecretRecord {
    /// A copy of this secret row.
    pub fn duplicate(&self) -> (r: SecretRecord)
        ensures
            r@ == self@,
    {
        SecretRecord {
            env_id: copy_string(&self.env_id),
            key: copy_string(&self.key),
            value: copy_string(&self.value),
        }
    }
}

impl DirectoryLink {
    /// A copy of this link.
    pub fn duplicate(&self) -> (r: DirectoryLink)
        ensures
            r@ == self@,
    {
        DirectoryLink { path: copy_string(&self.path), project_id: copy_string(&self.project_id) }
    }
}

impl ActiveState {
    /// A copy of this active state.
    pub fn duplicate(&self) -> (r: ActiveState)
        ensures
            r@ == self@,
    {
        ActiveState {
            project_id: copy_string(&self.project_id),
            active_slug: copy_string(&self.active_slug),
        }
    }
}


// ---------------------------------------------------------------------------
// Abstract state
// ---------------------------------------------------------------------------

/// The slug of the development environment every project has.
pub open spec fn dev_slug() -> Seq<char> {
    seq!['d', 'e', 'v']
}

/// The slug of the production environment every project has.
pub open spec fn prod_slug() -> Seq<char> {
    seq!['p', 'r', 'o', 'd']
}

pub open spec fn distinct_project_ids() -> spec_fn(ProjectRow, ProjectRow) -> bool {
    |a: ProjectRow, b: ProjectRow| a.id != b.id
}

pub open spec fn distinct_project_names() -> spec_fn(ProjectRow, ProjectRow) -> bool {
    |a: ProjectRow, b: ProjectRow| a.name != b.name
}

pub open spec fn distinct_env_ids() -> spec_fn(EnvRow, EnvRow) -> bool {
    |a: EnvRow, b: EnvRow| a.id != b.id
}

pub open spec fn distinct_env_keys() -> spec_fn(EnvRow, EnvRow) -> bool {
    |a: EnvRow, b: EnvRow| !(a.project_id == b.project_id && a.slug == b.slug)
}

pub open spec fn distinct_secret_keys() -> spec_fn(SecretRow, SecretRow) -> bool {
    |a: SecretRow, b: SecretRow| !(a.env_id == b.env_id && a.key == b.key)
}

pub open spec fn distinct_link_paths() -> spec_fn(LinkRow, LinkRow) -> bool {
    |a: LinkRow, b: LinkRow| a.path != b.path
}

pub open spec fn distinct_active_projects() -> spec_fn(ActiveRow, ActiveRow) -> bool {
    |a: ActiveRow, b: ActiveRow| a.project_id != b.project_id
}

pub open spec fn project_other_than(id: Seq<char>) -> spec_fn(ProjectRow) -> bool {
    |p: ProjectRow| p.id != id
}

pub open spec fn env_of_project(project_id: Seq<char>) -> spec_fn(EnvRow) -> bool {
    |e: EnvRow| e.project_id == project_id
}

pub open spec fn env_not_of_project(project_id: Seq<char>) -> spec_fn(EnvRow) -> bool {
    |e: EnvRow| e.project_id != project_id
}

pub open spec fn env_other_than(id: Seq<char>) -> spec_fn(EnvRow) -> bool {
    |e: EnvRow| e.id != id
}

pub open spec fn secret_of_env(env_id: Seq<char>) -> spec_fn(SecretRow) -> bool {
    |s: SecretRow| s.env_id == env_id
}

pub open spec fn secret_not_of_env(env_id: Seq<char>) -> spec_fn(SecretRow) -> bool {
    |s: SecretRow| s.env_id != env_id
}

pub open spec fn secret_other_than(env_id: Seq<char>, key: Seq<char>) -> spec_fn(SecretRow) -> bool {
    |s: SecretRow| !(s.env_id == env_id && s.key == key)
}

pub open spec fn link_other_than(path: Seq<char>) -> spec_fn(LinkRow) -> bool {
    |l: LinkRow| l.path != path
}

pub open spec fn link_not_of_project(project_id: Seq<char>) -> spec_fn(LinkRow) -> bool {
    |l: LinkRow| l.project_id != project_id
}

pub open spec fn active_not_of_project(project_id: Seq<char>) -> spec_fn(ActiveRow) -> bool {
    |a: ActiveRow| a.project_id != project_id
}

/// The key and value of a secret row.
pub open spec fn secret_entry(s: SecretRow) -> (Seq<char>, Seq<char>) {
    (s.key, s.value)
}

/// The contents of all tables, in row order.
#[verifier::ext_equal]
pub struct DbState {
    pub projects: Seq<ProjectRow>,
    pub envs: Seq<EnvRow>,
    pub secrets: Seq<SecretRow>,
    pub links: Seq<LinkRow>,
    pub active: Seq<ActiveRow>,
}

impl DbState {
    /// The state of a freshly created database.
    pub open spec fn empty() -> DbState {
        DbState {
            projects: Seq::empty(),
            envs: Seq::empty(),
            secrets: Seq::empty(),
            links: Seq::empty(),
            active: Seq::empty(),
        }
    }

    // ---- lookups ----

    pub open spec fn has_project(self, id: Seq<char>) -> bool {
        exists|i: int| 0 <= i < self.projects.len() && #[trigger] self.projects[i].id == id
    }

    pub open spec fn has_project_named(self, name: Seq<char>) -> bool {
        exists|i: int| 0 <= i < self.projects.len() && #[trigger] self.projects[i].name == name
    }

    pub open spec fn has_env_id(self, id: Seq<char>) -> bool {
        exists|i: int| 0 <= i < self.envs.len() && #[trigger] self.envs[i].id == id
    }

    pub open spec fn has_env(self, project_id: Seq<char>, slug: Seq<char>) -> bool {
        exists|i: int|
            0 <= i < self.envs.len() && #[trigger] self.envs[i].project_id == project_id
                && self.envs[i].slug == slug
    }

    /// Some environment with id `env_id` belongs to project `project_id`.
    pub open spec fn env_in_project(self, env_id: Seq<char>, project_id: Seq<char>) -> bool {
        exists|i: int|
            0 <= i < self.envs.len() && #[trigger] self.envs[i].id == env_id
                && self.envs[i].project_id == project_id
    }

    pub open spec fn has_secret(self, env_id: Seq<char>, key: Seq<char>) -> bool {
        exists|i: int|
            0 <= i < self.secrets.len() && #[trigger] self.secrets[i].env_id == env_id
                && self.secrets[i].key == key
    }

    pub open spec fn has_link(self, path: Seq<char>) -> bool {
        exists|i: int| 0 <= i < self.links.len() && #[trigger] self.links[i].path == path
    }

    pub open spec fn has_active(self, project_id: Seq<char>) -> bool {
        exists|i: int| 0 <= i < self.active.len() && #[trigger] self.active[i].project_id == project_id
    }

    /// The project with id `id`.
    pub open spec fn project_by_id(self, id: Seq<char>) -> Option<ProjectRow> {
        if self.has_project(id) {
            Some(self.projects[choose|i: int| 0 <= i < self.projects.len() && #[trigger] self.projects[i].id == id])
        } else {
            None
        }
    }

    /// The project named `name`.
    pub open spec fn project_by_name(self, name: Seq<char>) -> Option<ProjectRow> {
        if self.has_project_named(name) {
            Some(self.projects[choose|i: int| 0 <= i < self.projects.len() && #[trigger] self.projects[i].name == name])
        } else {
            None
        }
    }

    /// The environment with id `id`.
    pub open spec fn env_by_id(self, id: Seq<char>) -> Option<EnvRow> {
        if self.has_env_id(id) {
            Some(self.envs[choose|i: int| 0 <= i < self.envs.len() && #[trigger] self.envs[i].id == id])
        } else {
            None
        }
    }

    /// The environment `slug` of project `project_id`.
    pub open spec fn env_by_key(self, project_id: Seq<char>, slug: Seq<char>) -> Option<EnvRow> {
        if self.has_env(project_id, slug) {
            Some(self.envs[choose|i: int|
                0 <= i < self.envs.len() && #[trigger] self.envs[i].project_id == project_id
                    && self.envs[i].slug == slug])
        } else {
            None
        }
    }

    /// The value of secret `key` of environment `env_id`.
    pub open spec fn secret_value(self, env_id: Seq<char>, key: Seq<char>) -> Option<Seq<char>> {
        if self.has_secret(env_id, key) {
            Some(self.secrets[choose|i: int|
                0 <= i < self.secrets.len() && #[trigger] self.secrets[i].env_id == env_id
                    && self.secrets[i].key == key].value)
        } else {
            None
        }
    }

    /// The active environment slug recorded for project `project_id`.
    pub open spec fn active_slug(self, project_id: Seq<char>) -> Option<Seq<char>> {
        if self.has_active(project_id) {
            Some(self.active[choose|i: int| 0 <= i < self.active.len() && #[trigger] self.active[i].project_id == project_id].slug)
        } else {
            None
        }
    }

    /// The project id that directory `path` is linked to.
    pub open spec fn link_target(self, path: Seq<char>) -> Option<Seq<char>> {
        if self.has_link(path) {
            Some(self.links[choose|i: int| 0 <= i < self.links.len() && #[trigger] self.links[i].path == path].project_id)
        } else {
            None
        }
    }

    /// The project that directory `path` itself is linked to.
    pub open spec fn linked_project(self, path: Seq<char>) -> Option<ProjectRow> {
        match self.link_target(path) {
            Some(project_id) => self.project_by_id(project_id),
            None => None,
        }
    }

    /// The project of the nearest directory, among `path` and the parents
    /// reached in at most `fuel - 1` steps, that is linked to a project.
    pub open spec fn resolve_from(self, path: Seq<char>, fuel: nat) -> Option<ProjectRow>
        decreases fuel,
    {
        if fuel == 0 {
            None
        } else {
            match self.linked_project(path) {
                Some(p) => Some(p),
                None => match spec_path_parent(path) {
                    Some(parent) => self.resolve_from(parent, (fuel - 1) as nat),
                    None => None,
                },
            }
        }
    }

    /// The project that a directory belongs to: the project linked to the
    /// nearest of the cleaned path and its ancestors that has a link. Each
    /// parent is shorter than its child, so `len + 1` steps reach every ancestor.
    pub open spec fn project_for_path(self, path: Seq<char>) -> Option<ProjectRow> {
        self.resolve_from(spec_path_clean(path), spec_path_clean(path).len() + 1)
    }

    /// The environments of a project, in table order.
    pub open spec fn envs_of(self, project_id: Seq<char>) -> Seq<EnvRow> {
        self.envs.filter(env_of_project(project_id))
    }

    /// The secrets of an environment as key/value pairs, in table order.
    pub open spec fn secrets_of(self, env_id: Seq<char>) -> Seq<(Seq<char>, Seq<char>)> {
        self.secrets.filter(secret_of_env(env_id)).map_values(|s: SecretRow| secret_entry(s))
    }

    // ---- constraints ----

    /// Primary keys and unique columns hold no duplicate.
    pub open spec fn unique_keys(self) -> bool {
        &&& pairwise(self.projects, distinct_project_ids())
        &&& pairwise(self.projects, distinct_project_names())
        &&& pairwise(self.envs, distinct_env_ids())
        &&& pairwise(self.envs, distinct_env_keys())
        &&& pairwise(self.secrets, distinct_secret_keys())
        &&& pairwise(self.links, distinct_link_paths())
        &&& pairwise(self.active, distinct_active_projects())
    }

    /// Every reference names an existing row.
    pub open spec fn references_exist(self) -> bool {
        &&& forall|i: int|
            0 <= i < self.envs.len() ==> self.has_project(#[trigger] self.envs[i].project_id)
        &&& forall|i: int|
            0 <= i < self.secrets.len() ==> self.has_env_id(#[trigger] self.secrets[i].env_id)
        &&& forall|i: int|
            0 <= i < self.links.len() ==> self.has_project(#[trigger] self.links[i].project_id)
        &&& forall|i: int|
            0 <= i < self.active.len() ==> self.has_project(#[trigger] self.active[i].project_id)
    }

    /// The schema's constraints hold.
    pub open spec fn wf(self) -> bool {
        self.unique_keys() && self.references_exist()
    }

    // ---- changes ----

    /// A new project `p`, with its `dev` and `prod` environments and `dev`
    /// as its active environment.
    pub open spec fn with_project(self, p: ProjectRow, dev_id: Seq<char>, prod_id: Seq<char>) -> DbState {
        DbState {
            projects: self.projects.push(p),
            envs: self.envs.push(EnvRow { id: dev_id, project_id: p.id, slug: dev_slug() }).push(
                EnvRow { id: prod_id, project_id: p.id, slug: prod_slug() },
            ),
            active: self.active.push(ActiveRow { project_id: p.id, slug: dev_slug() }),
            ..self
        }
    }

    /// When `with_project` keeps the constraints.
    pub open spec fn can_add_project(self, p: ProjectRow, dev_id: Seq<char>, prod_id: Seq<char>) -> bool {
        &&& !self.has_project(p.id)
        &&& !self.has_project_named(p.name)
        &&& dev_id != prod_id
        &&& !self.has_env_id(dev_id)
        &&& !self.has_env_id(prod_id)
    }

    /// A new environment row.
    pub open spec fn with_env(self, e: EnvRow) -> DbState {
        DbState { envs: self.envs.push(e), ..self }
    }

    /// When `with_env` keeps the constraints.
    pub open spec fn can_add_env(self, e: EnvRow) -> bool {
        &&& self.has_project(e.project_id)
        &&& !self.has_env_id(e.id)
        &&& !self.has_env(e.project_id, e.slug)
    }

    /// The environment with id `id` removed, together with its secrets.
    pub open spec fn without_env(self, id: Seq<char>) -> DbState {
        DbState {
            envs: self.envs.filter(env_other_than(id)),
            secrets: self.secrets.filter(secret_not_of_env(id)),
            ..self
        }
    }

    /// Secret `s` written, replacing the one with the same environment and key.
    pub open spec fn with_secret(self, s: SecretRow) -> DbState {
        DbState { secrets: self.secrets.filter(secret_other_than(s.env_id, s.key)).push(s), ..self }
    }

    /// The secret `key` of environment `env_id` removed.
    pub open spec fn without_secret(self, env_id: Seq<char>, key: Seq<char>) -> DbState {
        DbState { secrets: self.secrets.filter(secret_other_than(env_id, key)), ..self }
    }

    /// The active environment of a project recorded, replacing the former one.
    pub open spec fn with_active(self, a: ActiveRow) -> DbState {
        DbState {
            active: self.active.filter(active_not_of_project(a.project_id)).push(a),
            ..self
        }
    }

    /// A directory link recorded, replacing the former link of that directory.
    pub open spec fn with_link(self, l: LinkRow) -> DbState {
        DbState { links: self.links.filter(link_other_than(l.path)).push(l), ..self }
    }

    /// Whether a secret row stays when project `project_id` is deleted.
    pub open spec fn secret_survives(self, project_id: Seq<char>) -> spec_fn(SecretRow) -> bool {
        |s: SecretRow| !self.env_in_project(s.env_id, project_id)
    }

    /// Project `project_id` removed with everything that refers to it.
    pub open spec fn without_project(self, project_id: Seq<char>) -> DbState {
        DbState {
            projects: self.projects.filter(project_other_than(project_id)),
            envs: self.envs.filter(env_not_of_project(project_id)),
            secrets: self.secrets.filter(self.secret_survives(project_id)),
            links: self.links.filter(link_not_of_project(project_id)),
            active: self.active.filter(active_not_of_project(project_id)),
        }
    }
}

/// What restoring `dump` over `current` leaves: the dump where it keeps the
/// schema's constraints, else `current` unchanged.
pub open spec fn restored(current: DbState, dump: DbState) -> DbState {
    if dump.wf() {
        dump
    } else {
        current
    }
}

// ---------------------------------------------------------------------------
// The changes keep the constraints
// ---------------------------------------------------------------------------

/// The uniqueness constraints, written out index by index.
pub proof fn lemma_unique_rows(s: DbState)
    requires
        s.unique_keys(),
    ensures
        forall|i: int, j: int|
            0 <= i < s.projects.len() && 0 <= j < s.projects.len() && i != j
                ==> #[trigger] s.projects[i].id != #[trigger] s.projects[j].id,
        forall|i: int, j: int|
            0 <= i < s.projects.len() && 0 <= j < s.projects.len() && i != j
                ==> #[trigger] s.projects[i].name != #[trigger] s.projects[j].name,
        forall|i: int, j: int|
            0 <= i < s.envs.len() && 0 <= j < s.envs.len() && i != j
                ==> #[trigger] s.envs[i].id != #[trigger] s.envs[j].id,
        forall|i: int, j: int|
            0 <= i < s.envs.len() && 0 <= j < s.envs.len() && i != j
                ==> !(#[trigger] s.envs[i].project_id == #[trigger] s.envs[j].project_id
                && s.envs[i].slug == s.envs[j].slug),
        forall|i: int, j: int|
            0 <= i < s.secrets.len() && 0 <= j < s.secrets.len() && i != j
                ==> !(#[trigger] s.secrets[i].env_id == #[trigger] s.secrets[j].env_id
                && s.secrets[i].key == s.secrets[j].key),
        forall|i: int, j: int|
            0 <= i < s.links.len() && 0 <= j < s.links.len() && i != j
                ==> #[trigger] s.links[i].path != #[trigger] s.links[j].path,
        forall|i: int, j: int|
            0 <= i < s.active.len() && 0 <= j < s.active.len() && i != j
                ==> #[trigger] s.active[i].project_id != #[trigger] s.active[j].project_id,
{
    assert forall|i: int, j: int|
        0 <= i < s.projects.len() && 0 <= j < s.projects.len() && i != j
            implies #[trigger] s.projects[i].id != #[trigger] s.projects[j].id by {
        if i < j {
            assert(distinct_project_ids()(s.projects[i], s.projects[j]));
        } else {
            assert(distinct_project_ids()(s.projects[j], s.projects[i]));
        }
    }
    assert forall|i: int, j: int|
        0 <= i < s.projects.len() && 0 <= j < s.projects.len() && i != j
            implies #[trigger] s.projects[i].name != #[trigger] s.projects[j].name by {
        if i < j {
            assert(distinct_project_names()(s.projects[i], s.projects[j]));
        } else {
            assert(distinct_project_names()(s.projects[j], s.projects[i]));
        }
    }
    assert forall|i: int, j: int|
        0 <= i < s.envs.len() && 0 <= j < s.envs.len() && i != j
            implies #[trigger] s.envs[i].id != #[trigger] s.envs[j].id by {
        if i < j {
            assert(distinct_env_ids()(s.envs[i], s.envs[j]));
        } else {
            assert(distinct_env_ids()(s.envs[j], s.envs[i]));
        }
    }
    assert forall|i: int, j: int|
        0 <= i < s.envs.len() && 0 <= j < s.envs.len() && i != j
            implies !(#[trigger] s.envs[i].project_id == #[trigger] s.envs[j].project_id
            && s.envs[i].slug == s.envs[j].slug) by {
        if i < j {
            assert(distinct_env_keys()(s.envs[i], s.envs[j]));
        } else {
            assert(distinct_env_keys()(s.envs[j], s.envs[i]));
        }
    }
    assert forall|i: int, j: int|
        0 <= i < s.secrets.len() && 0 <= j < s.secrets.len() && i != j
            implies !(#[trigger] s.secrets[i].env_id == #[trigger] s.secrets[j].env_id
            && s.secrets[i].key == s.secrets[j].key) by {
        if i < j {
            assert(distinct_secret_keys()(s.secrets[i], s.secrets[j]));
        } else {
            assert(distinct_secret_keys()(s.secrets[j], s.secrets[i]));
        }
    }
    assert forall|i: int, j: int|
        0 <= i < s.links.len() && 0 <= j < s.links.len() && i != j
            implies #[trigger] s.links[i].path != #[trigger] s.links[j].path by {
        if i < j {
            assert(distinct_link_paths()(s.links[i], s.links[j]));
        } else {
            assert(distinct_link_paths()(s.links[j], s.links[i]));
        }
    }
    assert forall|i: int, j: int|
        0 <= i < s.active.len() && 0 <= j < s.active.len() && i != j
            implies #[trigger] s.active[i].project_id != #[trigger] s.active[j].project_id by {
        if i < j {
            assert(distinct_active_projects()(s.active[i], s.active[j]));
        } else {
            assert(distinct_active_projects()(s.active[j], s.active[i]));
        }
    }
}

/// Tables with the same projects know the same project ids.
pub proof fn lemma_same_projects(s: DbState, t: DbState)
    requires
        s.projects == t.projects,
    ensures
        forall|x: Seq<char>| s.has_project(x) ==> #[trigger] t.has_project(x),
{
    assert forall|x: Seq<char>| s.has_project(x) implies #[trigger] t.has_project(x) by {
        let k = choose|k: int| 0 <= k < s.projects.len() && #[trigger] s.projects[k].id == x;
        assert(t.projects[k] == s.projects[k]);
    }
}

/// Tables with the same environments know the same environment ids.
pub proof fn lemma_same_envs(s: DbState, t: DbState)
    requires
        s.envs == t.envs,
    ensures
        forall|x: Seq<char>| s.has_env_id(x) ==> #[trigger] t.has_env_id(x),
{
    assert forall|x: Seq<char>| s.has_env_id(x) implies #[trigger] t.has_env_id(x) by {
        let k = choose|k: int| 0 <= k < s.envs.len() && #[trigger] s.envs[k].id == x;
        assert(t.envs[k] == s.envs[k]);
    }
}

pub proof fn lemma_with_project_wf(s: DbState, p: ProjectRow, dev_id: Seq<char>, prod_id: Seq<char>)
    requires
        s.wf(),
        s.can_add_project(p, dev_id, prod_id),
    ensures
        s.with_project(p, dev_id, prod_id).wf(),
{
    let t = s.with_project(p, dev_id, prod_id);
    let dev = EnvRow { id: dev_id, project_id: p.id, slug: dev_slug() };
    let prod = EnvRow { id: prod_id, project_id: p.id, slug: prod_slug() };
    let act = ActiveRow { project_id: p.id, slug: dev_slug() };
    assert(dev_slug() != prod_slug()) by {
        assert(dev_slug().len() != prod_slug().len());
    }
    lemma_push_pairwise(s.projects, p, distinct_project_ids());
    lemma_push_pairwise(s.projects, p, distinct_project_names());
    lemma_push_pairwise(s.envs, dev, distinct_env_ids());
    let e1 = s.envs.push(dev);
    assert forall|i: int| 0 <= i < e1.len() implies #[trigger] distinct_env_ids()(e1[i], prod) by {
        if i < s.envs.len() {
            assert(e1[i] == s.envs[i]);
        }
    }
    lemma_push_pairwise(e1, prod, distinct_env_ids());
    assert forall|i: int| 0 <= i < s.envs.len() implies #[trigger] distinct_env_keys()(s.envs[i], dev) by {
        assert(s.has_project(s.envs[i].project_id));
    }
    lemma_push_pairwise(s.envs, dev, distinct_env_keys());
    assert forall|i: int| 0 <= i < e1.len() implies #[trigger] distinct_env_keys()(e1[i], prod) by {
        if i < s.envs.len() {
            assert(e1[i] == s.envs[i]);
            assert(s.has_project(s.envs[i].project_id));
        }
    }
    lemma_push_pairwise(e1, prod, distinct_env_keys());
    assert forall|i: int| 0 <= i < s.active.len() implies #[trigger] distinct_active_projects()(s.active[i], act) by {
        assert(s.has_project(s.active[i].project_id));
    }
    lemma_push_pairwise(s.active, act, distinct_active_projects());
    assert(t.references_exist()) by {
        assert forall|x: Seq<char>| s.has_project(x) implies t.has_project(x) by {
            let k = choose|k: int| 0 <= k < s.projects.len() && #[trigger] s.projects[k].id == x;
            assert(t.projects[k] == s.projects[k]);
        }
        assert forall|x: Seq<char>| s.has_env_id(x) implies t.has_env_id(x) by {
            let k = choose|k: int| 0 <= k < s.envs.len() && #[trigger] s.envs[k].id == x;
            assert(t.envs[k] == s.envs[k]);
        }
        assert(t.projects[s.projects.len() as int] == p);
        assert(t.has_project(p.id));
        assert forall|i: int| 0 <= i < t.envs.len() implies t.has_project(#[trigger] t.envs[i].project_id) by {
            if i < s.envs.len() {
                assert(t.envs[i] == s.envs[i]);
            }
        }
        assert forall|i: int| 0 <= i < t.active.len() implies t.has_project(#[trigger] t.active[i].project_id) by {
            if i < s.active.len() {
                assert(t.active[i] == s.active[i]);
            }
        }
        assert forall|i: int| 0 <= i < t.secrets.len() implies t.has_env_id(#[trigger] t.secrets[i].env_id) by {
            assert(s.has_env_id(s.secrets[i].env_id));
        }
        assert forall|i: int| 0 <= i < t.links.len() implies t.has_project(#[trigger] t.links[i].project_id) by {
            assert(s.has_project(s.links[i].project_id));
        }
    }
}

pub proof fn lemma_with_env_wf(s: DbState, e: EnvRow)
    requires
        s.wf(),
        s.can_add_env(e),
    ensures
        s.with_env(e).wf(),
{
    let t = s.with_env(e);
    lemma_same_projects(s, t);
    lemma_push_pairwise(s.envs, e, distinct_env_ids());
    lemma_push_pairwise(s.envs, e, distinct_env_keys());
    assert forall|x: Seq<char>| s.has_env_id(x) implies t.has_env_id(x) by {
        let k = choose|k: int| 0 <= k < s.envs.len() && #[trigger] s.envs[k].id == x;
        assert(t.envs[k] == s.envs[k]);
    }
    assert forall|i: int| 0 <= i < t.envs.len() implies t.has_project(#[trigger] t.envs[i].project_id) by {
        if i < s.envs.len() {
            assert(t.envs[i] == s.envs[i]);
        }
    }
    assert forall|i: int| 0 <= i < t.secrets.len() implies t.has_env_id(#[trigger] t.secrets[i].env_id) by {
        assert(s.has_env_id(s.secrets[i].env_id));
    }
}

pub proof fn lemma_without_env_wf(s: DbState, id: Seq<char>)
    requires
        s.wf(),
    ensures
        s.without_env(id).wf(),
{
    let t = s.without_env(id);
    lemma_same_projects(s, t);
    lemma_filter_pairwise(s.envs, env_other_than(id), distinct_env_ids());
    lemma_filter_pairwise(s.envs, env_other_than(id), distinct_env_keys());
    lemma_filter_pairwise(s.secrets, secret_not_of_env(id), distinct_secret_keys());
    lemma_filter_elements(s.envs, env_other_than(id));
    lemma_filter_elements(s.secrets, secret_not_of_env(id));
    assert forall|i: int| 0 <= i < t.envs.len() implies t.has_project(#[trigger] t.envs[i].project_id) by {
        assert(s.envs.contains(t.envs[i]));
        let k = choose|k: int| 0 <= k < s.envs.len() && s.envs[k] == t.envs[i];
        assert(s.has_project(s.envs[k].project_id));
    }
    assert forall|i: int| 0 <= i < t.secrets.len() implies t.has_env_id(#[trigger] t.secrets[i].env_id) by {
        let r = t.secrets[i];
        assert(secret_not_of_env(id)(r));
        assert(s.secrets.contains(r));
        let k = choose|k: int| 0 <= k < s.secrets.len() && s.secrets[k] == r;
        assert(s.has_env_id(s.secrets[k].env_id));
        let m = choose|m: int| 0 <= m < s.envs.len() && #[trigger] s.envs[m].id == r.env_id;
        assert(env_other_than(id)(s.envs[m]));
        assert(t.envs.contains(s.envs[m]));
        let n = choose|n: int| 0 <= n < t.envs.len() && t.envs[n] == s.envs[m];
        assert(t.envs[n].id == r.env_id);
    }
}

pub proof fn lemma_with_secret_wf(s: DbState, r: SecretRow)
    requires
        s.wf(),
        s.has_env_id(r.env_id),
    ensures
        s.with_secret(r).wf(),
{
    let t = s.with_secret(r);
    lemma_same_envs(s, t);
    lemma_same_projects(s, t);
    let f = s.secrets.filter(secret_other_than(r.env_id, r.key));
    lemma_filter_pairwise(s.secrets, secret_other_than(r.env_id, r.key), distinct_secret_keys());
    lemma_filter_elements(s.secrets, secret_other_than(r.env_id, r.key));
    assert forall|i: int| 0 <= i < f.len() implies #[trigger] distinct_secret_keys()(f[i], r) by {
        assert(secret_other_than(r.env_id, r.key)(f[i]));
    }
    lemma_push_pairwise(f, r, distinct_secret_keys());
    assert forall|i: int| 0 <= i < t.secrets.len() implies t.has_env_id(#[trigger] t.secrets[i].env_id) by {
        if i < f.len() {
            assert(t.secrets[i] == f[i]);
            assert(s.secrets.contains(f[i]));
            let k = choose|k: int| 0 <= k < s.secrets.len() && s.secrets[k] == f[i];
            assert(s.has_env_id(s.secrets[k].env_id));
        }
    }
}

pub proof fn lemma_without_secret_wf(s: DbState, env_id: Seq<char>, key: Seq<char>)
    requires
        s.wf(),
    ensures
        s.without_secret(env_id, key).wf(),
{
    let t = s.without_secret(env_id, key);
    lemma_same_envs(s, t);
    lemma_same_projects(s, t);
    lemma_filter_pairwise(s.secrets, secret_other_than(env_id, key), distinct_secret_keys());
    lemma_filter_elements(s.secrets, secret_other_than(env_id, key));
    assert forall|i: int| 0 <= i < t.secrets.len() implies t.has_env_id(#[trigger] t.secrets[i].env_id) by {
        assert(s.secrets.contains(t.secrets[i]));
        let k = choose|k: int| 0 <= k < s.secrets.len() && s.secrets[k] == t.secrets[i];
        assert(s.has_env_id(s.secrets[k].env_id));
    }
}

pub proof fn lemma_with_active_wf(s: DbState, a: ActiveRow)
    requires
        s.wf(),
        s.has_project(a.project_id),
    ensures
        s.with_active(a).wf(),
{
    let t = s.with_active(a);
    lemma_same_projects(s, t);
    lemma_same_envs(s, t);
    let f = s.active.filter(active_not_of_project(a.project_id));
    lemma_filter_pairwise(s.active, active_not_of_project(a.project_id), distinct_active_projects());
    lemma_filter_elements(s.active, active_not_of_project(a.project_id));
    assert forall|i: int| 0 <= i < f.len() implies #[trigger] distinct_active_projects()(f[i], a) by {
        assert(active_not_of_project(a.project_id)(f[i]));
    }
    lemma_push_pairwise(f, a, distinct_active_projects());
    assert forall|i: int| 0 <= i < t.active.len() implies t.has_project(#[trigger] t.active[i].project_id) by {
        if i < f.len() {
            assert(t.active[i] == f[i]);
            assert(s.active.contains(f[i]));
            let k = choose|k: int| 0 <= k < s.active.len() && s.active[k] == f[i];
            assert(s.has_project(s.active[k].project_id));
        }
    }
    assert forall|i: int| 0 <= i < t.envs.len() implies t.has_project(#[trigger] t.envs[i].project_id) by {
        assert(s.has_project(s.envs[i].project_id));
    }
    assert forall|i: int| 0 <= i < t.links.len() implies t.has_project(#[trigger] t.links[i].project_id) by {
        assert(s.has_project(s.links[i].project_id));
    }
}

pub proof fn lemma_with_link_wf(s: DbState, l: LinkRow)
    requires
        s.wf(),
        s.has_project(l.project_id),
    ensures
        s.with_link(l).wf(),
{
    let t = s.with_link(l);
    lemma_same_projects(s, t);
    lemma_same_envs(s, t);
    let f = s.links.filter(link_other_than(l.path));
    lemma_filter_pairwise(s.links, link_other_than(l.path), distinct_link_paths());
    lemma_filter_elements(s.links, link_other_than(l.path));
    assert forall|i: int| 0 <= i < f.len() implies #[trigger] distinct_link_paths()(f[i], l) by {
        assert(link_other_than(l.path)(f[i]));
    }
    lemma_push_pairwise(f, l, distinct_link_paths());
    assert forall|i: int| 0 <= i < t.links.len() implies t.has_project(#[trigger] t.links[i].project_id) by {
        if i < f.len() {
            assert(t.links[i] == f[i]);
            assert(s.links.contains(f[i]));
            let k = choose|k: int| 0 <= k < s.links.len() && s.links[k] == f[i];
            assert(s.has_project(s.links[k].project_id));
        }
    }
    assert forall|i: int| 0 <= i < t.envs.len() implies t.has_project(#[trigger] t.envs[i].project_id) by {
        assert(s.has_project(s.envs[i].project_id));
    }
    assert forall|i: int| 0 <= i < t.active.len() implies t.has_project(#[trigger] t.active[i].project_id) by {
        assert(s.has_project(s.active[i].project_id));
    }
}

pub proof fn lemma_without_project_wf(s: DbState, project_id: Seq<char>)
    requires
        s.wf(),
    ensures
        s.without_project(project_id).wf(),
{
    let t = s.without_project(project_id);
    let pid = project_id;
    lemma_filter_pairwise(s.projects, project_other_than(pid), distinct_project_ids());
    lemma_filter_pairwise(s.projects, project_other_than(pid), distinct_project_names());
    lemma_filter_pairwise(s.envs, env_not_of_project(pid), distinct_env_ids());
    lemma_filter_pairwise(s.envs, env_not_of_project(pid), distinct_env_keys());
    lemma_filter_pairwise(s.secrets, s.secret_survives(pid), distinct_secret_keys());
    lemma_filter_pairwise(s.links, link_not_of_project(pid), distinct_link_paths());
    lemma_filter_pairwise(s.active, active_not_of_project(pid), distinct_active_projects());
    lemma_filter_elements(s.projects, project_other_than(pid));
    lemma_filter_elements(s.envs, env_not_of_project(pid));
    lemma_filter_elements(s.secrets, s.secret_survives(pid));
    lemma_filter_elements(s.links, link_not_of_project(pid));
    lemma_filter_elements(s.active, active_not_of_project(pid));
    // A project other than `pid` that existed still exists.
    assert forall|x: Seq<char>| s.has_project(x) && x != pid implies t.has_project(x) by {
        let k = choose|k: int| 0 <= k < s.projects.len() && #[trigger] s.projects[k].id == x;
        assert(project_other_than(pid)(s.projects[k]));
        assert(t.projects.contains(s.projects[k]));
        let n = choose|n: int| 0 <= n < t.projects.len() && t.projects[n] == s.projects[k];
        assert(t.projects[n].id == x);
    }
    assert forall|i: int| 0 <= i < t.envs.len() implies t.has_project(#[trigger] t.envs[i].project_id) by {
        let e = t.envs[i];
        assert(env_not_of_project(pid)(e));
        assert(s.envs.contains(e));
        let k = choose|k: int| 0 <= k < s.envs.len() && s.envs[k] == e;
        assert(s.has_project(s.envs[k].project_id));
    }
    assert forall|i: int| 0 <= i < t.links.len() implies t.has_project(#[trigger] t.links[i].project_id) by {
        let l = t.links[i];
        assert(link_not_of_project(pid)(l));
        assert(s.links.contains(l));
        let k = choose|k: int| 0 <= k < s.links.len() && s.links[k] == l;
        assert(s.has_project(s.links[k].project_id));
    }
    assert forall|i: int| 0 <= i < t.active.len() implies t.has_project(#[trigger] t.active[i].project_id) by {
        let a = t.active[i];
        assert(active_not_of_project(pid)(a));
        assert(s.active.contains(a));
        let k = choose|k: int| 0 <= k < s.active.len() && s.active[k] == a;
        assert(s.has_project(s.active[k].project_id));
    }
    assert forall|i: int| 0 <= i < t.secrets.len() implies t.has_env_id(#[trigger] t.secrets[i].env_id) by {
        let r = t.secrets[i];
        assert(s.secret_survives(pid)(r));
        assert(s.secrets.contains(r));
        let k = choose|k: int| 0 <= k < s.secrets.len() && s.secrets[k] == r;
        assert(s.has_env_id(s.secrets[k].env_id));
        let m = choose|m: int| 0 <= m < s.envs.len() && #[trigger] s.envs[m].id == r.env_id;
        assert(s.envs[m].project_id != pid);
        assert(env_not_of_project(pid)(s.envs[m]));
        assert(t.envs.contains(s.envs[m]));
        let n = choose|n: int| 0 <= n < t.envs.len() && t.envs[n] == s.envs[m];
        assert(t.envs[n].id == r.env_id);
    }
}


// ---------------------------------------------------------------------------
// Lookups by a row that holds the key
// ---------------------------------------------------------------------------

pub proof fn lemma_project_by_id_at(s: DbState, k: int)
    requires
        s.unique_keys(),
        0 <= k < s.projects.len(),
    ensures
        s.project_by_id(s.projects[k].id) == Some(s.projects[k]),
{
    lemma_unique_rows(s);
    let id = s.projects[k].id;
    assert(s.has_project(id));
    let j = choose|j: int| 0 <= j < s.projects.len() && #[trigger] s.projects[j].id == id;
    assert(j == k);
}

pub proof fn lemma_project_by_name_at(s: DbState, k: int)
    requires
        s.unique_keys(),
        0 <= k < s.projects.len(),
    ensures
        s.project_by_name(s.projects[k].name) == Some(s.projects[k]),
{
    lemma_unique_rows(s);
    let name = s.projects[k].name;
    assert(s.has_project_named(name));
    let j = choose|j: int| 0 <= j < s.projects.len() && #[trigger] s.projects[j].name == name;
    assert(j == k);
}

pub proof fn lemma_env_by_id_at(s: DbState, k: int)
    requires
        s.unique_keys(),
        0 <= k < s.envs.len(),
    ensures
        s.env_by_id(s.envs[k].id) == Some(s.envs[k]),
{
    lemma_unique_rows(s);
    let id = s.envs[k].id;
    assert(s.has_env_id(id));
    let j = choose|j: int| 0 <= j < s.envs.len() && #[trigger] s.envs[j].id == id;
    assert(j == k);
}

pub proof fn lemma_env_by_key_at(s: DbState, k: int)
    requires
        s.unique_keys(),
        0 <= k < s.envs.len(),
    ensures
        s.env_by_key(s.envs[k].project_id, s.envs[k].slug) == Some(s.envs[k]),
{
    lemma_unique_rows(s);
    let pid = s.envs[k].project_id;
    let slug = s.envs[k].slug;
    assert(s.has_env(pid, slug));
    let j = choose|j: int|
        0 <= j < s.envs.len() && #[trigger] s.envs[j].project_id == pid && s.envs[j].slug == slug;
    assert(j == k);
}

pub proof fn lemma_active_slug_at(s: DbState, k: int)
    requires
        s.unique_keys(),
        0 <= k < s.active.len(),
    ensures
        s.active_slug(s.active[k].project_id) == Some(s.active[k].slug),
{
    lemma_unique_rows(s);
    let pid = s.active[k].project_id;
    assert(s.has_active(pid));
    let j = choose|j: int| 0 <= j < s.active.len() && #[trigger] s.active[j].project_id == pid;
    assert(j == k);
}

pub proof fn lemma_link_target_at(s: DbState, k: int)
    requires
        s.unique_keys(),
        0 <= k < s.links.len(),
    ensures
        s.link_target(s.links[k].path) == Some(s.links[k].project_id),
{
    lemma_unique_rows(s);
    let path = s.links[k].path;
    assert(s.has_link(path));
    let j = choose|j: int| 0 <= j < s.links.len() && #[trigger] s.links[j].path == path;
    assert(j == k);
}

/// With unique environment ids, an environment belongs to a project exactly
/// when the row with its id names that project.
pub proof fn lemma_env_in_project_at(s: DbState, k: int, project_id: Seq<char>)
    requires
        s.unique_keys(),
        0 <= k < s.envs.len(),
    ensures
        s.env_in_project(s.envs[k].id, project_id) == (s.envs[k].project_id == project_id),
{
    lemma_unique_rows(s);
    let id = s.envs[k].id;
    if s.env_in_project(id, project_id) {
        let j = choose|j: int|
            0 <= j < s.envs.len() && #[trigger] s.envs[j].id == id && s.envs[j].project_id == project_id;
        assert(j == k);
    }
}


// ---------------------------------------------------------------------------
// Restoring the default environments
// ---------------------------------------------------------------------------

/// `next` is `self` with default environments (`dev` or `prod`) added that
/// `self` lacked, and nothing else changed.
pub open spec fn adds_defaults(old: DbState, next: DbState) -> bool {
    &&& next.projects == old.projects
    &&& next.secrets == old.secrets
    &&& next.links == old.links
    &&& next.active == old.active
    &&& old.envs.len() <= next.envs.len()
    &&& next.envs.subrange(0, old.envs.len() as int) == old.envs
    &&& forall|i: int|
        old.envs.len() <= i < next.envs.len() ==> (#[trigger] next.envs[i].slug == dev_slug()
            || next.envs[i].slug == prod_slug()) && !old.has_env(next.envs[i].project_id, next.envs[i].slug)
}

/// Every project has its `dev` and `prod` environments.
pub open spec fn has_default_envs(s: DbState) -> bool {
    forall|i: int|
        0 <= i < s.projects.len() ==> s.has_env(#[trigger] s.projects[i].id, dev_slug()) && s.has_env(
            s.projects[i].id,
            prod_slug(),
        )
}

/// The store after the first `k` projects get their missing `dev` and `prod`
/// environments, in project order, `dev` first, the ids for project `i`
/// taken from `ids[i]`.
pub open spec fn with_defaults_upto(s: DbState, ids: Seq<(Seq<char>, Seq<char>)>, k: nat) -> DbState
    decreases k,
{
    if k == 0 {
        s
    } else {
        let t = with_defaults_upto(s, ids, (k - 1) as nat);
        let pid = s.projects[k - 1].id;
        let t1 = if t.has_env(pid, dev_slug()) {
            t
        } else {
            t.with_env(EnvRow { id: ids[k - 1].0, project_id: pid, slug: dev_slug() })
        };
        if t1.has_env(pid, prod_slug()) {
            t1
        } else {
            t1.with_env(EnvRow { id: ids[k - 1].1, project_id: pid, slug: prod_slug() })
        }
    }
}

/// The store after every project gets its missing default environments,
/// with the ids of `ids`.
pub open spec fn with_defaults(s: DbState, ids: Seq<(Seq<char>, Seq<char>)>) -> DbState {
    with_defaults_upto(s, ids, s.projects.len())
}

/// Ids that serve for the default environments: a pair per project, every id
/// new to the store and all of them different.
pub open spec fn ids_fit(s: DbState, ids: Seq<(Seq<char>, Seq<char>)>) -> bool {
    &&& ids.len() == s.projects.len()
    &&& forall|i: int|
        0 <= i < ids.len() ==> !s.has_env_id(#[trigger] ids[i].0) && !s.has_env_id(ids[i].1) && ids[i].0
            != ids[i].1
    &&& forall|i: int, j: int|
        #![trigger ids[i], ids[j]]
        0 <= i < j < ids.len() ==> ids[i].0 != ids[j].0 && ids[i].0 != ids[j].1 && ids[i].1 != ids[j].0
            && ids[i].1 != ids[j].1
}

pub proof fn lemma_adds_defaults_refl(s: DbState)
    ensures
        adds_defaults(s, s),
{
    assert(s.envs.subrange(0, s.envs.len() as int) =~= s.envs);
}

/// Adding a missing default environment extends `adds_defaults` and keeps
/// every environment that was there.
pub proof fn lemma_adds_defaults_step(old: DbState, cur: DbState, e: EnvRow)
    requires
        adds_defaults(old, cur),
        e.slug == dev_slug() || e.slug == prod_slug(),
        !cur.has_env(e.project_id, e.slug),
    ensures
        adds_defaults(old, cur.with_env(e)),
        cur.with_env(e).has_env(e.project_id, e.slug),
        forall|p: Seq<char>, s: Seq<char>| cur.has_env(p, s) ==> #[trigger] cur.with_env(e).has_env(p, s),
{
    let next = cur.with_env(e);
    assert(next.envs.subrange(0, old.envs.len() as int) =~= cur.envs.subrange(0, old.envs.len() as int));
    assert forall|p: Seq<char>, s: Seq<char>| old.has_env(p, s) implies cur.has_env(p, s) by {
        let k = choose|k: int| 0 <= k < old.envs.len() && #[trigger] old.envs[k].project_id == p && old.envs[k].slug == s;
        assert(cur.envs.subrange(0, old.envs.len() as int)[k] == cur.envs[k]);
    }
    assert forall|i: int| old.envs.len() <= i < next.envs.len() implies (#[trigger] next.envs[i].slug == dev_slug()
        || next.envs[i].slug == prod_slug()) && !old.has_env(next.envs[i].project_id, next.envs[i].slug) by {
        if i < cur.envs.len() {
            assert(next.envs[i] == cur.envs[i]);
        } else {
            assert(next.envs[i] == e);
        }
    }
    assert(next.envs[cur.envs.len() as int] == e);
    assert forall|p: Seq<char>, s: Seq<char>| cur.has_env(p, s) implies #[trigger] next.has_env(p, s) by {
        let k = choose|k: int| 0 <= k < cur.envs.len() && #[trigger] cur.envs[k].project_id == p && cur.envs[k].slug == s;
        assert(next.envs[k] == cur.envs[k]);
    }
}

} // verus!
