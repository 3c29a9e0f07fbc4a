//! The environment variables a command runs with: the secrets of an
//! environment plus the variables that name the project and the environment.

use vstd::prelude::*;

use crate::db::DbManager;
use crate::model::{secret_pairs, Project};
use crate::text::{str_equal, to_owned_string};

verus! {

/// The variable that names the project.
pub open spec fn project_id_var() -> Seq<char> {
    "DOPPER_PROJECT_ID"@
}

/// The variable that names the environment.
pub open spec fn env_var() -> Seq<char> {
    "DOPPER_ENV"@
}

/// A key that Dopper itself sets.
pub open spec fn is_system_key(key: Seq<char>) -> bool {
    key == project_id_var() || key == env_var()
}

pub open spec fn not_system_entry() -> spec_fn((Seq<char>, Seq<char>)) -> bool {
    |e: (Seq<char>, Seq<char>)| !is_system_key(e.0)
}

/// The variables for `secrets` of environment `slug` of project
/// `project_id`: the secrets in order, less any whose key Dopper sets
/// itself, then the project id and the environment slug.
pub open spec fn effective_vars(
    secrets: Seq<(Seq<char>, Seq<char>)>,
    project_id: Seq<char>,
    slug: Seq<char>,
) -> Seq<(Seq<char>, Seq<char>)> {
    secrets.filter(not_system_entry()).push((project_id_var(), project_id)).push((env_var(), slug))
}

/// Variables as text.
pub open spec fn var_pairs(v: Seq<(String, String)>) -> Seq<(Seq<char>, Seq<char>)> {
    v.map_values(|e: (String, String)| (e.0@, e.1@))
}

/// Why the variables of an environment cannot be given.
#[derive(Debug, PartialEq, Eq)]
pub enum EffectiveEnvError {
    /// The project has no environment with this slug.
    EnvironmentNotFound { slug: String, project_name: String },
}

impl EffectiveEnvError {
    /// The message shown for this error.
    pub fn message(&self) -> (r: String)
        ensures
            match self {
                EffectiveEnvError::EnvironmentNotFound { slug, project_name } => r@ == "Environment '"@
                    + slug@ + "' not found for project '"@ + project_name@ + "'."@,
            },
    {
        match self {
            EffectiveEnvError::EnvironmentNotFound { slug, project_name } => {
                to_owned_string("Environment '").concat(slug.as_str()).concat(
                    "' not found for project '",
                ).concat(project_name.as_str()).concat("'.")
            },
        }
    }
}

/// The variables a command runs with in environment `env_slug` of
/// `project`: its secrets, without any that Dopper sets itself, followed by
/// `DOPPER_PROJECT_ID` and `DOPPER_ENV`.
pub fn get_effective_env(db_manager: &DbManager, project: &Project, env_slug: &str) -> (r: Result<
    Vec<(String, String)>,
    EffectiveEnvError,
>)
    requires
        db_manager.wf(),
    ensures
        match db_manager@.env_by_key(project.id@, env_slug@) {
            Some(e) => r matches Ok(v) && var_pairs(v@) == effective_vars(
                db_manager@.secrets_of(e.id),
                project.id@,
                env_slug@,
            ),
            None => r matches Err(EffectiveEnvError::EnvironmentNotFound { slug, project_name })
                && slug@ == env_slug@ && project_name@ == project.name@,
        },
{
    let environment = match db_manager.get_environment(project.id.as_str(), env_slug) {
        Ok(e) => e,
        Err(_) => {
            return Err(
                EffectiveEnvError::EnvironmentNotFound {
                    slug: to_owned_string(env_slug),
                    project_name: project.name.clone(),
                },
            );
        },
    };
    let secrets = db_manager.get_secrets(environment.id.as_str());
    let ghost entries = secret_pairs(secrets@);
    let mut vars: Vec<(String, String)> = Vec::new();
    let n = secrets.len();
    for i in 0..n
        invariant
            n == secrets@.len(),
            entries == secret_pairs(secrets@),
            var_pairs(vars@) == entries.take(i as int).filter(not_system_entry()),
    {
        proof {
            crate::seq_facts::lemma_filter_take_step(entries, not_system_entry(), i as int);
        }
        let key = secrets[i].key.as_str();
        if !(str_equal(key, "DOPPER_PROJECT_ID") || str_equal(key, "DOPPER_ENV")) {
            let ghost before = vars@;
            vars.push((secrets[i].key.clone(), secrets[i].value.clone()));
            assert(var_pairs(vars@) =~= var_pairs(before).push(entries[i as int]));
        }
    }
    assert(entries.take(n as int) =~= entries);
    let ghost kept = vars@;
    vars.push((to_owned_string("DOPPER_PROJECT_ID"), project.id.clone()));
    vars.push((to_owned_string("DOPPER_ENV"), to_owned_string(env_slug)));
    assert(var_pairs(vars@) =~= var_pairs(kept).push((project_id_var(), project.id@)).push(
        (env_var(), env_slug@),
    ));
    Ok(vars)
}

/// The environment slug to use: the one given, else the project's active
/// environment, else `dev`.
pub fn get_env_slug(db_manager: &DbManager, env: &Option<String>, project_id: &str) -> (r: String)
    requires
        db_manager.wf(),
    ensures
        r@ == match env {
            Some(s) => s@,
            None => match db_manager@.active_slug(project_id@) {
                Some(a) => a,
                None => "dev"@,
            },
        },
{
    match env {
        Some(s) => s.clone(),
        None => match db_manager.get_active_environment(project_id) {
            Ok(slug) => slug,
            Err(_) => to_owned_string("dev"),
        },
    }
}

/// The variables in `.env` form: one `KEY=VALUE` line each, in order.
pub open spec fn dot_env_text(vars: Seq<(Seq<char>, Seq<char>)>) -> Seq<char>
    decreases vars.len(),
{
    if vars.len() == 0 {
        Seq::empty()
    } else {
        dot_env_text(vars.drop_last()) + vars.last().0 + seq!['='] + vars.last().1 + seq!['\n']
    }
}

/// The variables in `.env` form: one `KEY=VALUE` line each, in order.
pub fn format_dot_env(vars: &Vec<(String, String)>) -> (r: String)
    ensures
        r@ == dot_env_text(var_pairs(vars@)),
{
    let ghost all = var_pairs(vars@);
    let mut out = String::new();
    let n = vars.len();
    proof {
        reveal_strlit("=");
        reveal_strlit("\n");
    }
    for i in 0..n
        invariant
            n == vars@.len(),
            all == var_pairs(vars@),
            out@ == dot_env_text(all.take(i as int)),
    {
        proof {
            reveal_strlit("=");
            reveal_strlit("\n");
        }
        let line = to_owned_string(vars[i].0.as_str()).concat("=").concat(vars[i].1.as_str()).concat(
            "\n",
        );
        out = out.concat(line.as_str());
        assert(all.take(i + 1).drop_last() =~= all.take(i as int));
        assert(out@ =~= dot_env_text(all.take(i + 1)));
    }
    assert(all.take(n as int) =~= all);
    out
}

/// Each variable Dopper sets occurs exactly once, at the end, with the
/// project id and the environment slug; no secret keeps either key.
pub proof fn law_effective_env_system_vars(
    secrets: Seq<(Seq<char>, Seq<char>)>,
    project_id: Seq<char>,
    slug: Seq<char>,
)
    ensures
        ({
            let v = effective_vars(secrets, project_id, slug);
            &&& v.len() >= 2
            &&& v[v.len() - 2] == (project_id_var(), project_id)
            &&& v[v.len() - 1] == (env_var(), slug)
            &&& forall|i: int| 0 <= i < v.len() - 2 ==> !is_system_key(#[trigger] v[i].0)
        }),
{
    let f = secrets.filter(not_system_entry());
    crate::seq_facts::lemma_filter_elements(secrets, not_system_entry());
    let v = effective_vars(secrets, project_id, slug);
    assert forall|i: int| 0 <= i < v.len() - 2 implies !is_system_key(#[trigger] v[i].0) by {
        assert(v[i] == f[i]);
        assert(not_system_entry()(f[i]));
    }
}

} // verus!
