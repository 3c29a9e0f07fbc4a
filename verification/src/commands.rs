//! The decisions of the commands: which of them need the database and the
//! master key, what to link a directory to, and whether a secret is removed
//! at once, after a confirmation, or not at all.

use vstd::prelude::*;

use crate::db::DbManager;
use crate::model::{project_rows, Project};
use crate::prompts::{parse_selection, spec_parse_selection};

verus! {

/// The commands that differ in what they need before they run.
#[derive(Debug, Clone, Copy, PartialEq, Eq, Structural)]
pub enum CommandKind {
    Init,
    Destroy,
    Restore,
    Lock,
    Unlock,
    /// Every other command: those that read or change the stored data.
    Data,
}

/// Whether a command needs an existing database file.
pub open spec fn spec_needs_database(kind: CommandKind) -> bool {
    !(kind is Init || kind is Destroy || kind is Restore)
}

/// Whether a command needs the master key.
pub open spec fn spec_needs_master_key(kind: CommandKind) -> bool {
    !(kind is Init || kind is Destroy || kind is Lock || kind is Unlock)
}

/// Whether the command needs an existing database file: all but `init`,
/// `destroy` and `restore`.
pub fn needs_database(kind: CommandKind) -> (r: bool)
    ensures
        r == spec_needs_database(kind),
{
    match kind {
        CommandKind::Init | CommandKind::Destroy | CommandKind::Restore => false,
        _ => true,
    }
}

/// Whether the command needs the master key: all but `init`, `destroy`,
/// `lock` and `unlock`.
pub fn needs_master_key(kind: CommandKind) -> (r: bool)
    ensures
        r == spec_needs_master_key(kind),
{
    match kind {
        CommandKind::Init | CommandKind::Destroy | CommandKind::Lock | CommandKind::Unlock => false,
        _ => true,
    }
}

/// Whether the command may go on, given whether the database file exists:
/// it may unless it needs the database and there is none.
pub fn may_run(kind: CommandKind, database_exists: bool) -> (r: bool)
    ensures
        r == (database_exists || !spec_needs_database(kind)),
{
    database_exists || !needs_database(kind)
}

/// What linking a directory calls for.
pub enum LinkPlan {
    /// There is no project to link to.
    NoProjects,
    /// No project has the name given.
    NotFound(String),
    /// Link to this project.
    Link(Project),
    /// Ask the user to pick one of these projects, numbered from 1.
    Choose(Vec<Project>),
}

/// Decides what `link` does with the given project name, or without one.
pub fn plan_link(db: &DbManager, project_name: Option<&str>) -> (r: LinkPlan)
    requires
        db.wf(),
    ensures
        db@.projects.len() == 0 ==> r is NoProjects,
        db@.projects.len() > 0 ==> match project_name {
            Some(name) => match db@.project_by_name(name@) {
                Some(p) => r matches LinkPlan::Link(q) && q@ == p,
                None => r matches LinkPlan::NotFound(n) && n@ == name@,
            },
            None => r matches LinkPlan::Choose(v) && project_rows(v@) == db@.projects,
        },
{
    let projects = db.list_projects();
    if projects.len() == 0 {
        return LinkPlan::NoProjects;
    }
    match project_name {
        Some(name) => match db.get_project_by_name(name) {
            Ok(p) => LinkPlan::Link(p),
            Err(_) => LinkPlan::NotFound(crate::text::to_owned_string(name)),
        },
        None => LinkPlan::Choose(projects),
    }
}

/// The project picked by the answer to the numbered menu of `projects`.
pub fn choose_link_target(projects: &Vec<Project>, answer: &str) -> (r: Option<Project>)
    ensures
        match spec_parse_selection(answer@, projects@.len()) {
            Some(i) => r matches Some(p) && p@ == projects@[i as int]@,
            None => r is None,
        },
{
    match parse_selection(answer, projects.len()) {
        Some(i) => Some(projects[i].duplicate()),
        None => None,
    }
}

/// What unsetting a secret calls for.
pub enum UnsetPlan {
    /// The project has no such environment.
    EnvironmentMissing,
    /// The environment (with this id) has no such secret.
    NotSet(String),
    /// Ask for confirmation, then remove the secret from this environment.
    Confirm(String),
    /// Remove the secret from this environment at once.
    Unset(String),
}

/// Decides what `secrets unset` does: without `yes`, a secret that is set
/// is removed only after a confirmation, and one that is not set is
/// reported; with `yes`, the secret is removed at once.
pub fn plan_unset_secret(db: &DbManager, project_id: &str, env: &str, key: &str, yes: bool) -> (r: UnsetPlan)
    requires
        db.wf(),
    ensures
        match db@.env_by_key(project_id@, env@) {
            None => r is EnvironmentMissing,
            Some(e) => if yes {
                r matches UnsetPlan::Unset(id) && id@ == e.id
            } else if db@.has_secret(e.id, key@) {
                r matches UnsetPlan::Confirm(id) && id@ == e.id
            } else {
                r matches UnsetPlan::NotSet(id) && id@ == e.id
            },
        },
{
    match db.get_environment(project_id, env) {
        Err(_) => UnsetPlan::EnvironmentMissing,
        Ok(environment) => {
            if yes {
                UnsetPlan::Unset(environment.id)
            } else if db.secret_exists(environment.id.as_str(), key) {
                UnsetPlan::Confirm(environment.id)
            } else {
                UnsetPlan::NotSet(environment.id)
            }
        },
    }
}

} // verus!
