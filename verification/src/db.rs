//! The store of a Dopper database: projects, environments, secrets,
//! directory links and active environments, kept to the schema's constraints.
//! Every operation is specified over the abstract tables of `model`.

use vstd::prelude::*;

use crate::model::{
    active_not_of_project, active_rows, env_not_of_project, env_of_project, env_other_than,
    env_rows, lemma_active_slug_at, lemma_env_by_id_at, lemma_env_by_key_at,
    lemma_env_in_project_at, lemma_link_target_at, lemma_project_by_id_at,
    lemma_project_by_name_at, lemma_unique_rows, lemma_with_active_wf, lemma_with_env_wf,
    lemma_with_link_wf, lemma_with_project_wf, lemma_with_secret_wf, lemma_without_env_wf,
    lemma_without_project_wf, lemma_without_secret_wf, restored, link_not_of_project, link_other_than,
    link_rows, project_other_than, project_rows, secret_entry, secret_not_of_env,
    secret_of_env, secret_other_than, secret_pairs, secret_rows, ActiveRow, ActiveState,
    DbState, DirectoryLink, EnvRow, Environment, LinkRow, Project, ProjectRow, Secret,
    SecretRecord, SecretRow,
};
use crate::dump::{is_consistent, DopperDump};
use crate::paths::{clean_path, parent_path, spec_path_clean};
use crate::security::random_bytes;
use crate::seq_facts::lemma_filter_take_step;
use crate::text::{str_equal, to_owned_string};

verus! {

/// Why a store operation was refused.
#[derive(Debug, PartialEq, Eq, Structural)]
pub enum DbError {
    /// The row asked for does not exist.
    NotFound,
    /// The change would break a unique or foreign key constraint.
    ConstraintViolation,
    /// No random bytes could be had for a new id.
    RandomUnavailable,
}

/// The text of the version 4 UUID that `uuid::Builder::from_random_bytes`
/// makes of 16 random bytes.
pub uninterp spec fn spec_uuid_v4_text(bytes: Seq<u8>) -> Seq<char>;

/// Calls `uuid::Builder::from_random_bytes` on 16 bytes and renders the UUID
/// as text: hyphenated lowercase hex, 36 characters.
#[verifier::external_body]
fn uuid_v4_text(bytes: &[u8]) -> (res: String)
    requires
        bytes@.len() == 16,
    ensures
        res@ == spec_uuid_v4_text(bytes@),
        res@.len() == 36,
{
    let mut raw = [0u8; 16];
    raw.copy_from_slice(bytes);
    uuid::Builder::from_random_bytes(raw).into_uuid().to_string()
}

/// A new random id: a version 4 UUID of 16 random bytes, or `None` where no
/// random bytes can be had.
pub(crate) fn new_id() -> (r: Option<String>)
    ensures
        r matches Some(id) ==> exists|bytes: Seq<u8>|
            bytes.len() == 16 && id@ == #[trigger] spec_uuid_v4_text(bytes),
{
    match random_bytes(16) {
        Some(bytes) => Some(uuid_v4_text(bytes.as_slice())),
        None => None,
    }
}

/// The store of one Dopper database file.
pub struct DbManager {
    db_path: String,
    projects: Vec<Project>,
    environments: Vec<Environment>,
    secrets: Vec<SecretRecord>,
    links: Vec<DirectoryLink>,
    active_states: Vec<ActiveState>,
}

impl View for DbManager {
    type V = DbState;

    closed spec fn view(&self) -> DbState {
        DbState {
            projects: project_rows(self.projects@),
            envs: env_rows(self.environments@),
            secrets: secret_rows(self.secrets@),
            links: link_rows(self.links@),
            active: active_rows(self.active_states@),
        }
    }
}

impl DbManager {
    /// The path of the database file.
    pub closed spec fn spec_db_path(&self) -> Seq<char> {
        self.db_path@
    }

    /// The tables keep the schema's constraints.
    pub open spec fn wf(&self) -> bool {
        self@.wf()
    }

    /// An empty store for the database file at `path`; no file is touched.
    pub fn new(path: &str) -> (r: DbManager)
        ensures
            r.wf(),
            r@ == DbState::empty(),
            r.spec_db_path() == path@,
    {
        let r = DbManager {
            db_path: to_owned_string(path),
            projects: Vec::new(),
            environments: Vec::new(),
            secrets: Vec::new(),
            links: Vec::new(),
            active_states: Vec::new(),
        };
        assert(r@ =~= DbState::empty());
        r
    }

    /// The path of the database file.
    pub fn db_path(&self) -> (r: &str)
        ensures
            r@ == self.spec_db_path(),
    {
        self.db_path.as_str()
    }

    // -----------------------------------------------------------------------
    // Searches
    // -----------------------------------------------------------------------

    fn find_project_by_id(&self, id: &str) -> (r: Option<usize>)
        ensures
            match r {
                Some(i) => i < self@.projects.len() && self@.projects[i as int].id == id@,
                None => !self@.has_project(id@),
            },
    {
        let n = self.projects.len();
        for i in 0..n
            invariant
                n == self@.projects.len(),
                forall|j: int| 0 <= j < i ==> self@.projects[j].id != id@,
        {
            if str_equal(self.projects[i].id.as_str(), id) {
                return Some(i);
            }
        }
        None
    }

    fn find_project_by_name(&self, name: &str) -> (r: Option<usize>)
        ensures
            match r {
                Some(i) => i < self@.projects.len() && self@.projects[i as int].name == name@,
                None => !self@.has_project_named(name@),
            },
    {
        let n = self.projects.len();
        for i in 0..n
            invariant
                n == self@.projects.len(),
                forall|j: int| 0 <= j < i ==> self@.projects[j].name != name@,
        {
            if str_equal(self.projects[i].name.as_str(), name) {
                return Some(i);
            }
        }
        None
    }

    fn find_env_by_id(&self, id: &str) -> (r: Option<usize>)
        ensures
            match r {
                Some(i) => i < self@.envs.len() && self@.envs[i as int].id == id@,
                None => !self@.has_env_id(id@),
            },
    {
        let n = self.environments.len();
        for i in 0..n
            invariant
                n == self@.envs.len(),
                forall|j: int| 0 <= j < i ==> self@.envs[j].id != id@,
        {
            if str_equal(self.environments[i].id.as_str(), id) {
                return Some(i);
            }
        }
        None
    }

    fn find_env_by_key(&self, project_id: &str, slug: &str) -> (r: Option<usize>)
        ensures
            match r {
                Some(i) => i < self@.envs.len() && self@.envs[i as int].project_id == project_id@
                    && self@.envs[i as int].slug == slug@,
                None => !self@.has_env(project_id@, slug@),
            },
    {
        let n = self.environments.len();
        for i in 0..n
            invariant
                n == self@.envs.len(),
                forall|j: int|
                    0 <= j < i ==> !(self@.envs[j].project_id == project_id@ && self@.envs[j].slug
                        == slug@),
        {
            if str_equal(self.environments[i].project_id.as_str(), project_id) && str_equal(
                self.environments[i].slug.as_str(),
                slug,
            ) {
                return Some(i);
            }
        }
        None
    }

    fn find_secret(&self, env_id: &str, key: &str) -> (r: Option<usize>)
        ensures
            match r {
                Some(i) => i < self@.secrets.len() && self@.secrets[i as int].env_id == env_id@
                    && self@.secrets[i as int].key == key@,
                None => !self@.has_secret(env_id@, key@),
            },
    {
        let n = self.secrets.len();
        for i in 0..n
            invariant
                n == self@.secrets.len(),
                forall|j: int|
                    0 <= j < i ==> !(self@.secrets[j].env_id == env_id@ && self@.secrets[j].key
                        == key@),
        {
            if str_equal(self.secrets[i].env_id.as_str(), env_id) && str_equal(
                self.secrets[i].key.as_str(),
                key,
            ) {
                return Some(i);
            }
        }
        None
    }

    fn find_active(&self, project_id: &str) -> (r: Option<usize>)
        ensures
            match r {
                Some(i) => i < self@.active.len() && self@.active[i as int].project_id
                    == project_id@,
                None => !self@.has_active(project_id@),
            },
    {
        let n = self.active_states.len();
        for i in 0..n
            invariant
                n == self@.active.len(),
                forall|j: int| 0 <= j < i ==> self@.active[j].project_id != project_id@,
        {
            if str_equal(self.active_states[i].project_id.as_str(), project_id) {
                return Some(i);
            }
        }
        None
    }

    fn find_link(&self, path: &str) -> (r: Option<usize>)
        ensures
            match r {
                Some(i) => i < self@.links.len() && self@.links[i as int].path == path@,
                None => !self@.has_link(path@),
            },
    {
        let n = self.links.len();
        for i in 0..n
            invariant
                n == self@.links.len(),
                forall|j: int| 0 <= j < i ==> self@.links[j].path != path@,
        {
            if str_equal(self.links[i].path.as_str(), path) {
                return Some(i);
            }
        }
        None
    }

    // -----------------------------------------------------------------------
    // Projects
    // -----------------------------------------------------------------------

    /// All projects, in table order.
    pub fn list_projects(&self) -> (r: Vec<Project>)
        ensures
            project_rows(r@) == self@.projects,
    {
        let mut out: Vec<Project> = Vec::new();
        let n = self.projects.len();
        for i in 0..n
            invariant
                n == self@.projects.len(),
                project_rows(out@) =~= self@.projects.take(i as int),
        {
            out.push(self.projects[i].duplicate());
            assert(self@.projects.take(i + 1) =~= self@.projects.take(i as int).push(
                self@.projects[i as int],
            ));
        }
        assert(self@.projects.take(n as int) =~= self@.projects);
        out
    }

    /// The project with the given id.
    pub fn get_project_by_id(&self, project_id: &str) -> (r: Result<Project, DbError>)
        requires
            self.wf(),
        ensures
            match r {
                Ok(p) => self@.project_by_id(project_id@) == Some(p@),
                Err(e) => e == DbError::NotFound && self@.project_by_id(project_id@) is None,
            },
    {
        match self.find_project_by_id(project_id) {
            Some(i) => {
                proof {
                    lemma_project_by_id_at(self@, i as int);
                }
                Ok(self.projects[i].duplicate())
            },
            None => Err(DbError::NotFound),
        }
    }

    /// The project with the given name.
    pub fn get_project_by_name(&self, name: &str) -> (r: Result<Project, DbError>)
        requires
            self.wf(),
        ensures
            match r {
                Ok(p) => self@.project_by_name(name@) == Some(p@),
                Err(e) => e == DbError::NotFound && self@.project_by_name(name@) is None,
            },
    {
        match self.find_project_by_name(name) {
            Some(i) => {
                proof {
                    lemma_project_by_name_at(self@, i as int);
                }
                Ok(self.projects[i].duplicate())
            },
            None => Err(DbError::NotFound),
        }
    }

    /// Creates project `name` with the given ids and creation time, its `dev`
    /// and `prod` environments, and `dev` as its active environment. Refused,
    /// changing nothing, where a name or an id is taken or the two
    /// environment ids are equal.
    pub fn create_project_with_ids(
        &mut self,
        project_id: String,
        name: &str,
        created_at: String,
        dev_env_id: String,
        prod_env_id: String,
    ) -> (r: Result<Project, DbError>)
        requires
            old(self).wf(),
        ensures
            final(self).wf(),
            final(self).spec_db_path() == old(self).spec_db_path(),
            ({
                let p = ProjectRow { id: project_id@, name: name@, created_at: created_at@ };
                if old(self)@.can_add_project(p, dev_env_id@, prod_env_id@) {
                    &&& r matches Ok(q) && q@ == p
                    &&& final(self)@ == old(self)@.with_project(p, dev_env_id@, prod_env_id@)
                } else {
                    &&& r == Err::<Project, DbError>(DbError::ConstraintViolation)
                    &&& final(self)@ == old(self)@
                }
            }),
    {
        let ghost p = ProjectRow { id: project_id@, name: name@, created_at: created_at@ };
        if self.find_project_by_id(project_id.as_str()).is_some() || self.find_project_by_name(
            name,
        ).is_some() || dev_env_id == prod_env_id || self.find_env_by_id(
            dev_env_id.as_str(),
        ).is_some() || self.find_env_by_id(prod_env_id.as_str()).is_some() {
            return Err(DbError::ConstraintViolation);
        }
        proof {
            lemma_with_project_wf(self@, p, dev_env_id@, prod_env_id@);
        }
        let ghost old_state = self@;
        let project = Project { id: project_id, name: to_owned_string(name), created_at };
        let result = project.duplicate();
        let dev_slug = to_owned_string("dev");
        let prod_slug = to_owned_string("prod");
        let active_slug = to_owned_string("dev");
        proof {
            reveal_strlit("dev");
            reveal_strlit("prod");
        }
        let dev = Environment {
            id: dev_env_id,
            project_id: project.id.clone(),
            slug: dev_slug,
        };
        let prod = Environment {
            id: prod_env_id,
            project_id: project.id.clone(),
            slug: prod_slug,
        };
        let active = ActiveState { project_id: project.id.clone(), active_slug };
        assert(project@ == p);
        assert(dev@ == (EnvRow { id: dev_env_id@, project_id: p.id, slug: crate::model::dev_slug() }));
        assert(prod@ == (EnvRow { id: prod_env_id@, project_id: p.id, slug: crate::model::prod_slug() }));
        assert(active@ == (ActiveRow { project_id: p.id, slug: crate::model::dev_slug() }));
        let ghost (p0, e0, a0) = (self.projects@, self.environments@, self.active_states@);
        self.projects.push(project);
        self.environments.push(dev);
        self.environments.push(prod);
        self.active_states.push(active);
        assert(project_rows(self.projects@) =~= project_rows(p0).push(p));
        assert(env_rows(self.environments@) =~= env_rows(e0).push(dev@).push(prod@));
        assert(active_rows(self.active_states@) =~= active_rows(a0).push(active@));
        assert(self@ =~= old_state.with_project(p, dev_env_id@, prod_env_id@));
        Ok(result)
    }

    /// Creates project `name` with fresh random ids and the current time.
    /// Refused, changing nothing, where the name is taken, and also where
    /// no random bytes can be had or a random id happens to be taken already.
    pub fn create_project(&mut self, name: &str) -> (r: Result<Project, DbError>)
        requires
            old(self).wf(),
        ensures
            final(self).wf(),
            final(self).spec_db_path() == old(self).spec_db_path(),
            old(self)@.has_project_named(name@) ==> r == Err::<Project, DbError>(
                DbError::ConstraintViolation,
            ),
            r matches Ok(p) ==> exists|secs: nat| p@.created_at == #[trigger] crate::clock::timestamp_text(secs),
            match r {
                Ok(p) => p@.name == name@ && exists|dev_id: Seq<char>, prod_id: Seq<char>|
                    #[trigger] old(self)@.can_add_project(p@, dev_id, prod_id) && final(self)@
                        == old(self)@.with_project(p@, dev_id, prod_id),
                Err(e) => (e == DbError::ConstraintViolation || e == DbError::RandomUnavailable)
                    && final(self)@ == old(self)@,
            },
    {
        if self.get_project_by_name(name).is_ok() {
            return Err(DbError::ConstraintViolation);
        }
        let project_id = match new_id() {
            Some(id) => id,
            None => {
                return Err(DbError::RandomUnavailable);
            },
        };
        let created_at = crate::clock::current_timestamp();
        let dev_id = match new_id() {
            Some(id) => id,
            None => {
                return Err(DbError::RandomUnavailable);
            },
        };
        let prod_id = match new_id() {
            Some(id) => id,
            None => {
                return Err(DbError::RandomUnavailable);
            },
        };
        let ghost dev_view = dev_id@;
        let ghost prod_view = prod_id@;
        let r = self.create_project_with_ids(project_id, name, created_at, dev_id, prod_id);
        proof {
            if r is Ok {
                assert(old(self)@.can_add_project(r->Ok_0@, dev_view, prod_view));
            }
        }
        r
    }

    /// Deletes the project called `name` with its environments, their
    /// secrets, its directory links and its active environment.
    pub fn delete_project(&mut self, name: &str) -> (r: Result<(), DbError>)
        requires
            old(self).wf(),
        ensures
            final(self).wf(),
            final(self).spec_db_path() == old(self).spec_db_path(),
            match old(self)@.project_by_name(name@) {
                Some(p) => r is Ok && final(self)@ == old(self)@.without_project(p.id),
                None => r == Err::<(), DbError>(DbError::NotFound) && final(self)@ == old(self)@,
            },
    {
        let k = match self.find_project_by_name(name) {
            Some(k) => k,
            None => {
                return Err(DbError::NotFound);
            },
        };
        proof {
            lemma_project_by_name_at(self@, k as int);
            lemma_without_project_wf(self@, self@.projects[k as int].id);
            lemma_unique_rows(self@);
        }
        let pid = self.projects[k].id.clone();
        let ghost old_state = self@;
        let ghost pv = pid@;

        let mut projects: Vec<Project> = Vec::new();
        let n = self.projects.len();
        for i in 0..n
            invariant
                n == old_state.projects.len(),
                self@ == old_state,
                pid@ == pv,
                project_rows(projects@) == old_state.projects.take(i as int).filter(
                    project_other_than(pv),
                ),
        {
            proof {
                lemma_filter_take_step(old_state.projects, project_other_than(pv), i as int);
            }
            if !str_equal(self.projects[i].id.as_str(), pid.as_str()) {
                let ghost before = projects@;
                projects.push(self.projects[i].duplicate());
                assert(project_rows(projects@) =~= project_rows(before).push(old_state.projects[i as int]));
            }
        }
        assert(old_state.projects.take(n as int) =~= old_state.projects);

        let mut envs: Vec<Environment> = Vec::new();
        let n = self.environments.len();
        for i in 0..n
            invariant
                n == old_state.envs.len(),
                self@ == old_state,
                pid@ == pv,
                env_rows(envs@) == old_state.envs.take(i as int).filter(env_not_of_project(pv)),
        {
            proof {
                lemma_filter_take_step(old_state.envs, env_not_of_project(pv), i as int);
            }
            if !str_equal(self.environments[i].project_id.as_str(), pid.as_str()) {
                let ghost before = envs@;
                envs.push(self.environments[i].duplicate());
                assert(env_rows(envs@) =~= env_rows(before).push(old_state.envs[i as int]));
            }
        }
        assert(old_state.envs.take(n as int) =~= old_state.envs);

        let mut secrets: Vec<SecretRecord> = Vec::new();
        let n = self.secrets.len();
        for i in 0..n
            invariant
                n == old_state.secrets.len(),
                self@ == old_state,
                pid@ == pv,
                old_state.unique_keys(),
                secret_rows(secrets@) == old_state.secrets.take(i as int).filter(
                    old_state.secret_survives(pv),
                ),
        {
            proof {
                lemma_filter_take_step(old_state.secrets, old_state.secret_survives(pv), i as int);
            }
            let keep = match self.find_env_by_id(self.secrets[i].env_id.as_str()) {
                Some(e) => {
                    proof {
                        lemma_env_in_project_at(old_state, e as int, pv);
                    }
                    !str_equal(self.environments[e].project_id.as_str(), pid.as_str())
                },
                None => true,
            };
            assert(keep == old_state.secret_survives(pv)(old_state.secrets[i as int]));
            if keep {
                let ghost before = secrets@;
                secrets.push(self.secrets[i].duplicate());
                assert(secret_rows(secrets@) =~= secret_rows(before).push(old_state.secrets[i as int]));
            }
        }
        assert(old_state.secrets.take(n as int) =~= old_state.secrets);

        let mut links: Vec<DirectoryLink> = Vec::new();
        let n = self.links.len();
        for i in 0..n
            invariant
                n == old_state.links.len(),
                self@ == old_state,
                pid@ == pv,
                link_rows(links@) == old_state.links.take(i as int).filter(link_not_of_project(pv)),
        {
            proof {
                lemma_filter_take_step(old_state.links, link_not_of_project(pv), i as int);
            }
            if !str_equal(self.links[i].project_id.as_str(), pid.as_str()) {
                let ghost before = links@;
                links.push(self.links[i].duplicate());
                assert(link_rows(links@) =~= link_rows(before).push(old_state.links[i as int]));
            }
        }
        assert(old_state.links.take(n as int) =~= old_state.links);

        let mut active: Vec<ActiveState> = Vec::new();
        let n = self.active_states.len();
        for i in 0..n
            invariant
                n == old_state.active.len(),
                self@ == old_state,
                pid@ == pv,
                active_rows(active@) == old_state.active.take(i as int).filter(
                    active_not_of_project(pv),
                ),
        {
            proof {
                lemma_filter_take_step(old_state.active, active_not_of_project(pv), i as int);
            }
            if !str_equal(self.active_states[i].project_id.as_str(), pid.as_str()) {
                let ghost before = active@;
                active.push(self.active_states[i].duplicate());
                assert(active_rows(active@) =~= active_rows(before).push(old_state.active[i as int]));
            }
        }
        assert(old_state.active.take(n as int) =~= old_state.active);

        self.projects = projects;
        self.environments = envs;
        self.secrets = secrets;
        self.links = links;
        self.active_states = active;
        assert(self@ =~= old_state.without_project(pv));
        Ok(())
    }

    // -----------------------------------------------------------------------
    // Directory links
    // -----------------------------------------------------------------------

    /// Links directory `path` to project `project_id`, replacing the
    /// directory's former link. Refused, changing nothing, where the project
    /// does not exist.
    pub fn link_directory(&mut self, project_id: &str, path: &str) -> (r: Result<(), DbError>)
        requires
            old(self).wf(),
        ensures
            final(self).wf(),
            final(self).spec_db_path() == old(self).spec_db_path(),
            if old(self)@.has_project(project_id@) {
                r is Ok && final(self)@ == old(self)@.with_link(
                    LinkRow { path: path@, project_id: project_id@ },
                )
            } else {
                r == Err::<(), DbError>(DbError::ConstraintViolation) && final(self)@ == old(self)@
            },
    {
        if self.find_project_by_id(project_id).is_none() {
            return Err(DbError::ConstraintViolation);
        }
        let ghost old_state = self@;
        let ghost l = LinkRow { path: path@, project_id: project_id@ };
        proof {
            lemma_with_link_wf(old_state, l);
        }
        let mut links: Vec<DirectoryLink> = Vec::new();
        let n = self.links.len();
        for i in 0..n
            invariant
                n == old_state.links.len(),
                self@ == old_state,
                link_rows(links@) == old_state.links.take(i as int).filter(link_other_than(path@)),
        {
            proof {
                lemma_filter_take_step(old_state.links, link_other_than(path@), i as int);
            }
            if !str_equal(self.links[i].path.as_str(), path) {
                let ghost before = links@;
                links.push(self.links[i].duplicate());
                assert(link_rows(links@) =~= link_rows(before).push(old_state.links[i as int]));
            }
        }
        assert(old_state.links.take(n as int) =~= old_state.links);
        let ghost kept = links@;
        links.push(DirectoryLink { path: to_owned_string(path), project_id: to_owned_string(project_id) });
        assert(link_rows(links@) =~= link_rows(kept).push(l));
        self.links = links;
        assert(self@ =~= old_state.with_link(l));
        Ok(())
    }

    /// The project linked to `path` itself, if any.
    fn project_linked_to(&self, path: &str) -> (r: Option<Project>)
        requires
            self.wf(),
        ensures
            match r {
                Some(p) => self@.linked_project(path@) == Some(p@),
                None => self@.linked_project(path@) is None,
            },
    {
        match self.find_link(path) {
            Some(k) => {
                proof {
                    lemma_link_target_at(self@, k as int);
                }
                match self.find_project_by_id(self.links[k].project_id.as_str()) {
                    Some(j) => {
                        proof {
                            lemma_project_by_id_at(self@, j as int);
                        }
                        Some(self.projects[j].duplicate())
                    },
                    None => None,
                }
            },
            None => None,
        }
    }

    /// The project that directory `path` belongs to: the project linked to
    /// the nearest of the cleaned path and its parent directories.
    pub fn get_project_from_path(&self, path: &str) -> (r: Option<Project>)
        requires
            self.wf(),
        ensures
            match r {
                Some(p) => self@.project_for_path(path@) == Some(p@),
                None => self@.project_for_path(path@) is None,
            },
    {
        let mut current = clean_path(path);
        let ghost start = current@;
        let ghost fuel: nat = (start.len() + 1) as nat;
        let ghost mut steps: nat = 0;
        loop
            invariant
                self.wf(),
                start == spec_path_clean(path@),
                fuel == start.len() + 1,
                steps <= fuel,
                current@.len() < fuel - steps,
                self@.resolve_from(start, fuel) == self@.resolve_from(current@, (fuel - steps) as nat),
            decreases current@.len(),
        {
            match self.project_linked_to(current.as_str()) {
                Some(p) => {
                    return Some(p);
                },
                None => {
                    match parent_path(current.as_str()) {
                        Some(parent) => {
                            proof {
                                steps = steps + 1;
                            }
                            current = parent;
                        },
                        None => {
                            return None;
                        },
                    }
                },
            }
        }
    }

    // -----------------------------------------------------------------------
    // Environments
    // -----------------------------------------------------------------------

    /// Environment `slug` of project `project_id`.
    pub fn get_environment(&self, project_id: &str, slug: &str) -> (r: Result<Environment, DbError>)
        requires
            self.wf(),
        ensures
            match r {
                Ok(e) => self@.env_by_key(project_id@, slug@) == Some(e@),
                Err(e) => e == DbError::NotFound && self@.env_by_key(project_id@, slug@) is None,
            },
    {
        match self.find_env_by_key(project_id, slug) {
            Some(i) => {
                proof {
                    lemma_env_by_key_at(self@, i as int);
                }
                Ok(self.environments[i].duplicate())
            },
            None => Err(DbError::NotFound),
        }
    }

    /// The environment with id `env_id`.
    pub fn get_environment_by_id(&self, env_id: &str) -> (r: Result<Environment, DbError>)
        requires
            self.wf(),
        ensures
            match r {
                Ok(e) => self@.env_by_id(env_id@) == Some(e@),
                Err(e) => e == DbError::NotFound && self@.env_by_id(env_id@) is None,
            },
    {
        match self.find_env_by_id(env_id) {
            Some(i) => {
                proof {
                    lemma_env_by_id_at(self@, i as int);
                }
                Ok(self.environments[i].duplicate())
            },
            None => Err(DbError::NotFound),
        }
    }

    /// Adds environment `slug` to project `project_id` with id `env_id`.
    fn insert_environment(&mut self, project_id: &str, slug: &str, env_id: String) -> (r: Environment)
        requires
            old(self).wf(),
            old(self)@.can_add_env(EnvRow { id: env_id@, project_id: project_id@, slug: slug@ }),
        ensures
            final(self).wf(),
            final(self).spec_db_path() == old(self).spec_db_path(),
            r@ == (EnvRow { id: env_id@, project_id: project_id@, slug: slug@ }),
            final(self)@ == old(self)@.with_env(r@),
    {
        let ghost old_state = self@;
        let ghost e = EnvRow { id: env_id@, project_id: project_id@, slug: slug@ };
        proof {
            lemma_with_env_wf(old_state, e);
        }
        let env = Environment {
            id: env_id,
            project_id: to_owned_string(project_id),
            slug: to_owned_string(slug),
        };
        let result = env.duplicate();
        self.environments.push(env);
        assert(self@ =~= old_state.with_env(e));
        result
    }

    /// Environment `slug` of project `project_id`, created with id `env_id`
    /// where it does not exist yet. Creating is refused, changing nothing,
    /// where the project does not exist or the id is taken.
    pub fn get_or_create_environment_with_id(
        &mut self,
        project_id: &str,
        slug: &str,
        env_id: String,
    ) -> (r: Result<Environment, DbError>)
        requires
            old(self).wf(),
        ensures
            final(self).wf(),
            final(self).spec_db_path() == old(self).spec_db_path(),
            ({
                let e = EnvRow { id: env_id@, project_id: project_id@, slug: slug@ };
                if old(self)@.has_env(project_id@, slug@) {
                    &&& r matches Ok(x) && old(self)@.env_by_key(project_id@, slug@) == Some(x@)
                    &&& final(self)@ == old(self)@
                } else if old(self)@.can_add_env(e) {
                    &&& r matches Ok(x) && x@ == e
                    &&& final(self)@ == old(self)@.with_env(e)
                } else {
                    &&& r == Err::<Environment, DbError>(DbError::ConstraintViolation)
                    &&& final(self)@ == old(self)@
                }
            }),
    {
        if let Some(i) = self.find_env_by_key(project_id, slug) {
            proof {
                lemma_env_by_key_at(self@, i as int);
            }
            return Ok(self.environments[i].duplicate());
        }
        if self.find_project_by_id(project_id).is_none() || self.find_env_by_id(env_id.as_str()).is_some() {
            return Err(DbError::ConstraintViolation);
        }
        Ok(self.insert_environment(project_id, slug, env_id))
    }

    /// Environment `slug` of project `project_id`, created with a fresh
    /// random id where it does not exist yet.
    pub fn get_or_create_environment(&mut self, project_id: &str, slug: &str) -> (r: Result<
        Environment,
        DbError,
    >)
        requires
            old(self).wf(),
        ensures
            final(self).wf(),
            final(self).spec_db_path() == old(self).spec_db_path(),
            old(self)@.has_env(project_id@, slug@) ==> (r matches Ok(x) && old(self)@.env_by_key(
                project_id@,
                slug@,
            ) == Some(x@) && final(self)@ == old(self)@),
            !old(self)@.has_env(project_id@, slug@) && !old(self)@.has_project(project_id@) ==> r
                == Err::<Environment, DbError>(DbError::ConstraintViolation) && final(self)@
                == old(self)@,
            !old(self)@.has_env(project_id@, slug@) ==> match r {
                Ok(x) => x@.project_id == project_id@ && x@.slug == slug@ && old(self)@.can_add_env(
                    x@,
                ) && final(self)@ == old(self)@.with_env(x@),
                Err(e) => (e == DbError::ConstraintViolation || e == DbError::RandomUnavailable)
                    && final(self)@ == old(self)@,
            },
    {
        match self.get_environment(project_id, slug) {
            Ok(e) => {
                return Ok(e);
            },
            Err(_) => {},
        }
        if self.get_project_by_id(project_id).is_err() {
            return Err(DbError::ConstraintViolation);
        }
        let env_id = match new_id() {
            Some(id) => id,
            None => {
                return Err(DbError::RandomUnavailable);
            },
        };
        self.get_or_create_environment_with_id(project_id, slug, env_id)
    }

    /// Creates environment `slug` of project `project_id` with id `env_id`.
    /// Refused, changing nothing, where the project already has that
    /// environment, the project does not exist or the id is taken.
    pub fn create_environment_with_id(
        &mut self,
        project_id: &str,
        slug: &str,
        env_id: String,
    ) -> (r: Result<Environment, DbError>)
        requires
            old(self).wf(),
        ensures
            final(self).wf(),
            final(self).spec_db_path() == old(self).spec_db_path(),
            ({
                let e = EnvRow { id: env_id@, project_id: project_id@, slug: slug@ };
                if old(self)@.can_add_env(e) {
                    &&& r matches Ok(x) && x@ == e
                    &&& final(self)@ == old(self)@.with_env(e)
                } else {
                    &&& r == Err::<Environment, DbError>(DbError::ConstraintViolation)
                    &&& final(self)@ == old(self)@
                }
            }),
    {
        if self.find_env_by_key(project_id, slug).is_some() || self.find_project_by_id(
            project_id,
        ).is_none() || self.find_env_by_id(env_id.as_str()).is_some() {
            return Err(DbError::ConstraintViolation);
        }
        Ok(self.insert_environment(project_id, slug, env_id))
    }

    /// Creates environment `slug` of project `project_id` with a fresh random id.
    pub fn create_environment(&mut self, project_id: &str, slug: &str) -> (r: Result<
        Environment,
        DbError,
    >)
        requires
            old(self).wf(),
        ensures
            final(self).wf(),
            final(self).spec_db_path() == old(self).spec_db_path(),
            old(self)@.has_env(project_id@, slug@) || !old(self)@.has_project(project_id@) ==> r
                == Err::<Environment, DbError>(DbError::ConstraintViolation),
            match r {
                Ok(x) => x@.project_id == project_id@ && x@.slug == slug@ && old(self)@.can_add_env(
                    x@,
                ) && final(self)@ == old(self)@.with_env(x@),
                Err(e) => (e == DbError::ConstraintViolation || e == DbError::RandomUnavailable)
                    && final(self)@ == old(self)@,
            },
    {
        if self.get_environment(project_id, slug).is_ok() || self.get_project_by_id(
            project_id,
        ).is_err() {
            return Err(DbError::ConstraintViolation);
        }
        let env_id = match new_id() {
            Some(id) => id,
            None => {
                return Err(DbError::RandomUnavailable);
            },
        };
        self.create_environment_with_id(project_id, slug, env_id)
    }

    /// Deletes environment `slug` of project `project_id` together with its secrets.
    pub fn delete_environment(&mut self, project_id: &str, slug: &str) -> (r: Result<(), DbError>)
        requires
            old(self).wf(),
        ensures
            final(self).wf(),
            final(self).spec_db_path() == old(self).spec_db_path(),
            match old(self)@.env_by_key(project_id@, slug@) {
                Some(e) => r is Ok && final(self)@ == old(self)@.without_env(e.id),
                None => r == Err::<(), DbError>(DbError::NotFound) && final(self)@ == old(self)@,
            },
    {
        let k = match self.find_env_by_key(project_id, slug) {
            Some(k) => k,
            None => {
                return Err(DbError::NotFound);
            },
        };
        proof {
            lemma_env_by_key_at(self@, k as int);
            lemma_without_env_wf(self@, self@.envs[k as int].id);
        }
        let id = self.environments[k].id.clone();
        let ghost old_state = self@;
        let ghost iv = id@;

        let mut envs: Vec<Environment> = Vec::new();
        let n = self.environments.len();
        for i in 0..n
            invariant
                n == old_state.envs.len(),
                self@ == old_state,
                id@ == iv,
                env_rows(envs@) == old_state.envs.take(i as int).filter(env_other_than(iv)),
        {
            proof {
                lemma_filter_take_step(old_state.envs, env_other_than(iv), i as int);
            }
            if !str_equal(self.environments[i].id.as_str(), id.as_str()) {
                let ghost before = envs@;
                envs.push(self.environments[i].duplicate());
                assert(env_rows(envs@) =~= env_rows(before).push(old_state.envs[i as int]));
            }
        }
        assert(old_state.envs.take(n as int) =~= old_state.envs);

        let mut secrets: Vec<SecretRecord> = Vec::new();
        let n = self.secrets.len();
        for i in 0..n
            invariant
                n == old_state.secrets.len(),
                self@ == old_state,
                id@ == iv,
                secret_rows(secrets@) == old_state.secrets.take(i as int).filter(
                    secret_not_of_env(iv),
                ),
        {
            proof {
                lemma_filter_take_step(old_state.secrets, secret_not_of_env(iv), i as int);
            }
            if !str_equal(self.secrets[i].env_id.as_str(), id.as_str()) {
                let ghost before = secrets@;
                secrets.push(self.secrets[i].duplicate());
                assert(secret_rows(secrets@) =~= secret_rows(before).push(old_state.secrets[i as int]));
            }
        }
        assert(old_state.secrets.take(n as int) =~= old_state.secrets);

        self.environments = envs;
        self.secrets = secrets;
        assert(self@ =~= old_state.without_env(iv));
        Ok(())
    }

    /// The environments of project `project_id`, in table order.
    pub fn list_environments(&self, project_id: &str) -> (r: Vec<Environment>)
        ensures
            env_rows(r@) == self@.envs_of(project_id@),
    {
        let ghost state = self@;
        let mut envs: Vec<Environment> = Vec::new();
        let n = self.environments.len();
        for i in 0..n
            invariant
                n == state.envs.len(),
                self@ == state,
                env_rows(envs@) == state.envs.take(i as int).filter(env_of_project(project_id@)),
        {
            proof {
                lemma_filter_take_step(state.envs, env_of_project(project_id@), i as int);
            }
            if str_equal(self.environments[i].project_id.as_str(), project_id) {
                let ghost before = envs@;
                envs.push(self.environments[i].duplicate());
                assert(env_rows(envs@) =~= env_rows(before).push(state.envs[i as int]));
            }
        }
        assert(state.envs.take(n as int) =~= state.envs);
        envs
    }

    // -----------------------------------------------------------------------
    // Secrets
    // -----------------------------------------------------------------------

    /// Sets secret `key` of environment `env_id` to `value`, replacing its
    /// former value. Refused, changing nothing, where the environment does
    /// not exist.
    pub fn set_secret(&mut self, env_id: &str, key: &str, value: &str) -> (r: Result<(), DbError>)
        requires
            old(self).wf(),
        ensures
            final(self).wf(),
            final(self).spec_db_path() == old(self).spec_db_path(),
            if old(self)@.has_env_id(env_id@) {
                r is Ok && final(self)@ == old(self)@.with_secret(
                    SecretRow { env_id: env_id@, key: key@, value: value@ },
                )
            } else {
                r == Err::<(), DbError>(DbError::ConstraintViolation) && final(self)@ == old(self)@
            },
    {
        if self.find_env_by_id(env_id).is_none() {
            return Err(DbError::ConstraintViolation);
        }
        let ghost old_state = self@;
        let ghost row = SecretRow { env_id: env_id@, key: key@, value: value@ };
        proof {
            lemma_with_secret_wf(old_state, row);
        }
        let mut secrets = self.secrets_without(env_id, key);
        let ghost kept = secrets@;
        secrets.push(
            SecretRecord {
                env_id: to_owned_string(env_id),
                key: to_owned_string(key),
                value: to_owned_string(value),
            },
        );
        assert(secret_rows(secrets@) =~= secret_rows(kept).push(row));
        self.secrets = secrets;
        assert(self@ =~= old_state.with_secret(row));
        Ok(())
    }

    /// The secret rows other than secret `key` of environment `env_id`.
    fn secrets_without(&self, env_id: &str, key: &str) -> (r: Vec<SecretRecord>)
        ensures
            secret_rows(r@) == self@.secrets.filter(secret_other_than(env_id@, key@)),
    {
        let ghost state = self@;
        let mut secrets: Vec<SecretRecord> = Vec::new();
        let n = self.secrets.len();
        for i in 0..n
            invariant
                n == state.secrets.len(),
                self@ == state,
                secret_rows(secrets@) == state.secrets.take(i as int).filter(
                    secret_other_than(env_id@, key@),
                ),
        {
            proof {
                lemma_filter_take_step(state.secrets, secret_other_than(env_id@, key@), i as int);
            }
            if !(str_equal(self.secrets[i].env_id.as_str(), env_id) && str_equal(
                self.secrets[i].key.as_str(),
                key,
            )) {
                let ghost before = secrets@;
                secrets.push(self.secrets[i].duplicate());
                assert(secret_rows(secrets@) =~= secret_rows(before).push(state.secrets[i as int]));
            }
        }
        assert(state.secrets.take(n as int) =~= state.secrets);
        secrets
    }

    /// Removes secret `key` of environment `env_id`, if it is set.
    pub fn unset_secret(&mut self, env_id: &str, key: &str)
        requires
            old(self).wf(),
        ensures
            final(self).wf(),
            final(self).spec_db_path() == old(self).spec_db_path(),
            final(self)@ == old(self)@.without_secret(env_id@, key@),
    {
        let ghost old_state = self@;
        proof {
            lemma_without_secret_wf(old_state, env_id@, key@);
        }
        let secrets = self.secrets_without(env_id, key);
        self.secrets = secrets;
        assert(self@ =~= old_state.without_secret(env_id@, key@));
    }

    /// Whether environment `env_id` has a secret `key`.
    pub fn secret_exists(&self, env_id: &str, key: &str) -> (r: bool)
        ensures
            r == self@.has_secret(env_id@, key@),
    {
        self.find_secret(env_id, key).is_some()
    }

    /// The secrets of environment `env_id`, in table order.
    pub fn get_secrets(&self, env_id: &str) -> (r: Vec<Secret>)
        ensures
            secret_pairs(r@) == self@.secrets_of(env_id@),
    {
        let ghost state = self@;
        let ghost pred = secret_of_env(env_id@);
        let mut out: Vec<Secret> = Vec::new();
        let n = self.secrets.len();
        for i in 0..n
            invariant
                n == state.secrets.len(),
                self@ == state,
                pred == secret_of_env(env_id@),
                secret_pairs(out@) == state.secrets.take(i as int).filter(pred).map_values(
                    |s: SecretRow| secret_entry(s),
                ),
        {
            proof {
                lemma_filter_take_step(state.secrets, pred, i as int);
            }
            if str_equal(self.secrets[i].env_id.as_str(), env_id) {
                let ghost before = out@;
                out.push(
                    Secret {
                        key: self.secrets[i].key.clone(),
                        value: self.secrets[i].value.clone(),
                    },
                );
                assert(secret_pairs(out@) =~= secret_pairs(before).push(
                    secret_entry(state.secrets[i as int]),
                ));
                assert(state.secrets.take(i + 1).filter(pred).map_values(
                    |s: SecretRow| secret_entry(s),
                ) =~= state.secrets.take(i as int).filter(pred).map_values(
                    |s: SecretRow| secret_entry(s),
                ).push(secret_entry(state.secrets[i as int])));
            }
        }
        assert(state.secrets.take(n as int) =~= state.secrets);
        out
    }

    // -----------------------------------------------------------------------
    // Active environments
    // -----------------------------------------------------------------------

    /// Records `slug` as the active environment of project `project_id`.
    /// Refused, changing nothing, where the project does not exist.
    pub fn set_active_environment(&mut self, project_id: &str, slug: &str) -> (r: Result<(), DbError>)
        requires
            old(self).wf(),
        ensures
            final(self).wf(),
            final(self).spec_db_path() == old(self).spec_db_path(),
            if old(self)@.has_project(project_id@) {
                r is Ok && final(self)@ == old(self)@.with_active(
                    ActiveRow { project_id: project_id@, slug: slug@ },
                )
            } else {
                r == Err::<(), DbError>(DbError::ConstraintViolation) && final(self)@ == old(self)@
            },
    {
        if self.find_project_by_id(project_id).is_none() {
            return Err(DbError::ConstraintViolation);
        }
        let ghost old_state = self@;
        let ghost a = ActiveRow { project_id: project_id@, slug: slug@ };
        proof {
            lemma_with_active_wf(old_state, a);
        }
        let mut active: Vec<ActiveState> = Vec::new();
        let n = self.active_states.len();
        for i in 0..n
            invariant
                n == old_state.active.len(),
                self@ == old_state,
                active_rows(active@) == old_state.active.take(i as int).filter(
                    active_not_of_project(project_id@),
                ),
        {
            proof {
                lemma_filter_take_step(old_state.active, active_not_of_project(project_id@), i as int);
            }
            if !str_equal(self.active_states[i].project_id.as_str(), project_id) {
                let ghost before = active@;
                active.push(self.active_states[i].duplicate());
                assert(active_rows(active@) =~= active_rows(before).push(old_state.active[i as int]));
            }
        }
        assert(old_state.active.take(n as int) =~= old_state.active);
        let ghost kept = active@;
        active.push(
            ActiveState { project_id: to_owned_string(project_id), active_slug: to_owned_string(slug) },
        );
        assert(active_rows(active@) =~= active_rows(kept).push(a));
        self.active_states = active;
        assert(self@ =~= old_state.with_active(a));
        Ok(())
    }

    /// The active environment recorded for project `project_id`.
    pub fn get_active_environment(&self, project_id: &str) -> (r: Result<String, DbError>)
        requires
            self.wf(),
        ensures
            match r {
                Ok(slug) => self@.active_slug(project_id@) == Some(slug@),
                Err(e) => e == DbError::NotFound && self@.active_slug(project_id@) is None,
            },
    {
        match self.find_active(project_id) {
            Some(i) => {
                proof {
                    lemma_active_slug_at(self@, i as int);
                }
                Ok(self.active_states[i].active_slug.clone())
            },
            None => Err(DbError::NotFound),
        }
    }

    // -----------------------------------------------------------------------
    // Dump and restore
    // -----------------------------------------------------------------------

    /// The contents of every table.
    pub fn dump(&self) -> (r: DopperDump)
        ensures
            r@ == self@,
    {
        let ghost state = self@;
        let mut projects: Vec<Project> = Vec::new();
        let n = self.projects.len();
        for i in 0..n
            invariant
                n == state.projects.len(),
                self@ == state,
                project_rows(projects@) =~= state.projects.take(i as int),
        {
            projects.push(self.projects[i].duplicate());
            assert(state.projects.take(i + 1) =~= state.projects.take(i as int).push(state.projects[i as int]));
        }
        assert(state.projects.take(n as int) =~= state.projects);
        let mut environments: Vec<Environment> = Vec::new();
        let n = self.environments.len();
        for i in 0..n
            invariant
                n == state.envs.len(),
                self@ == state,
                env_rows(environments@) =~= state.envs.take(i as int),
        {
            environments.push(self.environments[i].duplicate());
            assert(state.envs.take(i + 1) =~= state.envs.take(i as int).push(state.envs[i as int]));
        }
        assert(state.envs.take(n as int) =~= state.envs);
        let mut secrets: Vec<SecretRecord> = Vec::new();
        let n = self.secrets.len();
        for i in 0..n
            invariant
                n == state.secrets.len(),
                self@ == state,
                secret_rows(secrets@) =~= state.secrets.take(i as int),
        {
            secrets.push(self.secrets[i].duplicate());
            assert(state.secrets.take(i + 1) =~= state.secrets.take(i as int).push(state.secrets[i as int]));
        }
        assert(state.secrets.take(n as int) =~= state.secrets);
        let mut links: Vec<DirectoryLink> = Vec::new();
        let n = self.links.len();
        for i in 0..n
            invariant
                n == state.links.len(),
                self@ == state,
                link_rows(links@) =~= state.links.take(i as int),
        {
            links.push(self.links[i].duplicate());
            assert(state.links.take(i + 1) =~= state.links.take(i as int).push(state.links[i as int]));
        }
        assert(state.links.take(n as int) =~= state.links);
        let mut active: Vec<ActiveState> = Vec::new();
        let n = self.active_states.len();
        for i in 0..n
            invariant
                n == state.active.len(),
                self@ == state,
                active_rows(active@) =~= state.active.take(i as int),
        {
            active.push(self.active_states[i].duplicate());
            assert(state.active.take(i + 1) =~= state.active.take(i as int).push(state.active[i as int]));
        }
        assert(state.active.take(n as int) =~= state.active);
        let r = DopperDump {
            projects,
            environments,
            secrets,
            directory_links: links,
            active_states: active,
        };
        assert(r@ =~= state);
        r
    }

    /// Replaces every table with the contents of `dump`. Refused, changing
    /// nothing, where the dump breaks the schema's constraints.
    pub fn restore(&mut self, dump: DopperDump) -> (r: Result<(), DbError>)
        requires
            old(self).wf(),
        ensures
            final(self).wf(),
            final(self).spec_db_path() == old(self).spec_db_path(),
            final(self)@ == restored(old(self)@, dump@),
            r is Ok <==> dump@.wf(),
            r is Err ==> r == Err::<(), DbError>(DbError::ConstraintViolation),
    {
        if !is_consistent(&dump) {
            return Err(DbError::ConstraintViolation);
        }
        let ghost d = dump@;
        self.projects = dump.projects;
        self.environments = dump.environments;
        self.secrets = dump.secrets;
        self.links = dump.directory_links;
        self.active_states = dump.active_states;
        assert(self@ =~= d);
        Ok(())
    }
}

} // verus!
