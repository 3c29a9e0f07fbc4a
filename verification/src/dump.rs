//! A dump of a whole database, and the test whether a dump (read back from a
//! file, perhaps edited) keeps the schema's constraints before it is restored.

use vstd::prelude::*;

use crate::model::{
    active_rows, distinct_active_projects, distinct_env_ids, distinct_env_keys,
    distinct_link_paths, distinct_project_ids, distinct_project_names, distinct_secret_keys,
    env_rows, link_rows, project_rows, secret_rows, ActiveState, DbState, DirectoryLink,
    Environment, Project, SecretRecord,
};
use crate::seq_facts::pairwise;
use crate::text::str_equal;

verus! {

/// The contents of every table of a database.
#[derive(Debug)]
pub struct DopperDump {
    pub projects: Vec<Project>,
    pub environments: Vec<Environment>,
    pub secrets: Vec<SecretRecord>,
    pub directory_links: Vec<DirectoryLink>,
    pub active_states: Vec<ActiveState>,
}

impl View for DopperDump {
    type V = DbState;

    open spec fn view(&self) -> DbState {
        DbState {
            projects: project_rows(self.projects@),
            envs: env_rows(self.environments@),
            secrets: secret_rows(self.secrets@),
            links: link_rows(self.directory_links@),
            active: active_rows(self.active_states@),
        }
    }
}

fn unique_project_ids(v: &Vec<Project>) -> (r: bool)
    ensures
        r == pairwise(project_rows(v@), distinct_project_ids()),
{
    let ghost rows = project_rows(v@);
    let n = v.len();
    for j in 0..n
        invariant
            n == v@.len(),
            rows == project_rows(v@),
            forall|a: int, b: int| 0 <= a < b < j ==> #[trigger] distinct_project_ids()(rows[a], rows[b]),
    {
        for i in 0..j
            invariant
                n == v@.len(),
                j < n,
                rows == project_rows(v@),
                forall|a: int, b: int| 0 <= a < b < j ==> #[trigger] distinct_project_ids()(rows[a], rows[b]),
                forall|a: int| 0 <= a < i ==> #[trigger] distinct_project_ids()(rows[a], rows[j as int]),
        {
            if str_equal(v[i].id.as_str(), v[j].id.as_str()) {
                assert(!distinct_project_ids()(rows[i as int], rows[j as int]));
                return false;
            }
        }
    }
    true
}

fn unique_project_names(v: &Vec<Project>) -> (r: bool)
    ensures
        r == pairwise(project_rows(v@), distinct_project_names()),
{
    let ghost rows = project_rows(v@);
    let n = v.len();
    for j in 0..n
        invariant
            n == v@.len(),
            rows == project_rows(v@),
            forall|a: int, b: int| 0 <= a < b < j ==> #[trigger] distinct_project_names()(rows[a], rows[b]),
    {
        for i in 0..j
            invariant
                n == v@.len(),
                j < n,
                rows == project_rows(v@),
                forall|a: int, b: int| 0 <= a < b < j ==> #[trigger] distinct_project_names()(rows[a], rows[b]),
                forall|a: int| 0 <= a < i ==> #[trigger] distinct_project_names()(rows[a], rows[j as int]),
        {
            if str_equal(v[i].name.as_str(), v[j].name.as_str()) {
                assert(!distinct_project_names()(rows[i as int], rows[j as int]));
                return false;
            }
        }
    }
    true
}

fn unique_env_ids(v: &Vec<Environment>) -> (r: bool)
    ensures
        r == pairwise(env_rows(v@), distinct_env_ids()),
{
    let ghost rows = env_rows(v@);
    let n = v.len();
    for j in 0..n
        invariant
            n == v@.len(),
            rows == env_rows(v@),
            forall|a: int, b: int| 0 <= a < b < j ==> #[trigger] distinct_env_ids()(rows[a], rows[b]),
    {
        for i in 0..j
            invariant
                n == v@.len(),
                j < n,
                rows == env_rows(v@),
                forall|a: int, b: int| 0 <= a < b < j ==> #[trigger] distinct_env_ids()(rows[a], rows[b]),
                forall|a: int| 0 <= a < i ==> #[trigger] distinct_env_ids()(rows[a], rows[j as int]),
        {
            if str_equal(v[i].id.as_str(), v[j].id.as_str()) {
                assert(!distinct_env_ids()(rows[i as int], rows[j as int]));
                return false;
            }
        }
    }
    true
}

fn unique_env_keys(v: &Vec<Environment>) -> (r: bool)
    ensures
        r == pairwise(env_rows(v@), distinct_env_keys()),
{
    let ghost rows = env_rows(v@);
    let n = v.len();
    for j in 0..n
        invariant
            n == v@.len(),
            rows == env_rows(v@),
            forall|a: int, b: int| 0 <= a < b < j ==> #[trigger] distinct_env_keys()(rows[a], rows[b]),
    {
        for i in 0..j
            invariant
                n == v@.len(),
                j < n,
                rows == env_rows(v@),
                forall|a: int, b: int| 0 <= a < b < j ==> #[trigger] distinct_env_keys()(rows[a], rows[b]),
                forall|a: int| 0 <= a < i ==> #[trigger] distinct_env_keys()(rows[a], rows[j as int]),
        {
            if str_equal(v[i].project_id.as_str(), v[j].project_id.as_str()) && str_equal(
                v[i].slug.as_str(),
                v[j].slug.as_str(),
            ) {
                assert(!distinct_env_keys()(rows[i as int], rows[j as int]));
                return false;
            }
        }
    }
    true
}

fn unique_secret_keys(v: &Vec<SecretRecord>) -> (r: bool)
    ensures
        r == pairwise(secret_rows(v@), distinct_secret_keys()),
{
    let ghost rows = secret_rows(v@);
    let n = v.len();
    for j in 0..n
        invariant
            n == v@.len(),
            rows == secret_rows(v@),
            forall|a: int, b: int| 0 <= a < b < j ==> #[trigger] distinct_secret_keys()(rows[a], rows[b]),
    {
        for i in 0..j
            invariant
                n == v@.len(),
                j < n,
                rows == secret_rows(v@),
                forall|a: int, b: int| 0 <= a < b < j ==> #[trigger] distinct_secret_keys()(rows[a], rows[b]),
                forall|a: int| 0 <= a < i ==> #[trigger] distinct_secret_keys()(rows[a], rows[j as int]),
        {
            if str_equal(v[i].env_id.as_str(), v[j].env_id.as_str()) && str_equal(
                v[i].key.as_str(),
                v[j].key.as_str(),
            ) {
                assert(!distinct_secret_keys()(rows[i as int], rows[j as int]));
                return false;
            }
        }
    }
    true
}

fn unique_link_paths(v: &Vec<DirectoryLink>) -> (r: bool)
    ensures
        r == pairwise(link_rows(v@), distinct_link_paths()),
{
    let ghost rows = link_rows(v@);
    let n = v.len();
    for j in 0..n
        invariant
            n == v@.len(),
            rows == link_rows(v@),
            forall|a: int, b: int| 0 <= a < b < j ==> #[trigger] distinct_link_paths()(rows[a], rows[b]),
    {
        for i in 0..j
            invariant
                n == v@.len(),
                j < n,
                rows == link_rows(v@),
                forall|a: int, b: int| 0 <= a < b < j ==> #[trigger] distinct_link_paths()(rows[a], rows[b]),
                forall|a: int| 0 <= a < i ==> #[trigger] distinct_link_paths()(rows[a], rows[j as int]),
        {
            if str_equal(v[i].path.as_str(), v[j].path.as_str()) {
                assert(!distinct_link_paths()(rows[i as int], rows[j as int]));
                return false;
            }
        }
    }
    true
}

fn unique_active_projects(v: &Vec<ActiveState>) -> (r: bool)
    ensures
        r == pairwise(active_rows(v@), distinct_active_projects()),
{
    let ghost rows = active_rows(v@);
    let n = v.len();
    for j in 0..n
        invariant
            n == v@.len(),
            rows == active_rows(v@),
            forall|a: int, b: int| 0 <= a < b < j ==> #[trigger] distinct_active_projects()(rows[a], rows[b]),
    {
        for i in 0..j
            invariant
                n == v@.len(),
                j < n,
                rows == active_rows(v@),
                forall|a: int, b: int| 0 <= a < b < j ==> #[trigger] distinct_active_projects()(rows[a], rows[b]),
                forall|a: int| 0 <= a < i ==> #[trigger] distinct_active_projects()(rows[a], rows[j as int]),
        {
            if str_equal(v[i].project_id.as_str(), v[j].project_id.as_str()) {
                assert(!distinct_active_projects()(rows[i as int], rows[j as int]));
                return false;
            }
        }
    }
    true
}

fn knows_project(d: &DopperDump, id: &str) -> (r: bool)
    ensures
        r == d@.has_project(id@),
{
    let n = d.projects.len();
    for i in 0..n
        invariant
            n == d@.projects.len(),
            forall|j: int| 0 <= j < i ==> d@.projects[j].id != id@,
    {
        if str_equal(d.projects[i].id.as_str(), id) {
            assert(d@.projects[i as int].id == id@);
            return true;
        }
    }
    false
}

fn knows_env(d: &DopperDump, id: &str) -> (r: bool)
    ensures
        r == d@.has_env_id(id@),
{
    let n = d.environments.len();
    for i in 0..n
        invariant
            n == d@.envs.len(),
            forall|j: int| 0 <= j < i ==> d@.envs[j].id != id@,
    {
        if str_equal(d.environments[i].id.as_str(), id) {
            assert(d@.envs[i as int].id == id@);
            return true;
        }
    }
    false
}

fn references_exist(d: &DopperDump) -> (r: bool)
    ensures
        r == d@.references_exist(),
{
    let n = d.environments.len();
    for i in 0..n
        invariant
            n == d@.envs.len(),
            forall|j: int| 0 <= j < i ==> d@.has_project(#[trigger] d@.envs[j].project_id),
    {
        if !knows_project(d, d.environments[i].project_id.as_str()) {
            assert(!d@.has_project(d@.envs[i as int].project_id));
            return false;
        }
    }
    let n = d.secrets.len();
    for i in 0..n
        invariant
            n == d@.secrets.len(),
            forall|j: int| 0 <= j < i ==> d@.has_env_id(#[trigger] d@.secrets[j].env_id),
    {
        if !knows_env(d, d.secrets[i].env_id.as_str()) {
            assert(!d@.has_env_id(d@.secrets[i as int].env_id));
            return false;
        }
    }
    let n = d.directory_links.len();
    for i in 0..n
        invariant
            n == d@.links.len(),
            forall|j: int| 0 <= j < i ==> d@.has_project(#[trigger] d@.links[j].project_id),
    {
        if !knows_project(d, d.directory_links[i].project_id.as_str()) {
            assert(!d@.has_project(d@.links[i as int].project_id));
            return false;
        }
    }
    let n = d.active_states.len();
    for i in 0..n
        invariant
            n == d@.active.len(),
            forall|j: int| 0 <= j < i ==> d@.has_project(#[trigger] d@.active[j].project_id),
    {
        if !knows_project(d, d.active_states[i].project_id.as_str()) {
            assert(!d@.has_project(d@.active[i as int].project_id));
            return false;
        }
    }
    true
}

/// Whether a dump keeps the schema's constraints: no duplicate key and no
/// reference to a missing row.
pub fn is_consistent(d: &DopperDump) -> (r: bool)
    ensures
        r == d@.wf(),
{
    unique_project_ids(&d.projects) && unique_project_names(&d.projects) && unique_env_ids(
        &d.environments,
    ) && unique_env_keys(&d.environments) && unique_secret_keys(&d.secrets) && unique_link_paths(
        &d.directory_links,
    ) && unique_active_projects(&d.active_states) && references_exist(d)
}

} // verus!
