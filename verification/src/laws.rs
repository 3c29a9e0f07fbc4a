//! Properties of the store that span operations: reading back what was
//! written, isolation between environments, the defaults of a new project,
//! cascading deletes, and the round trip of a dump.

use vstd::prelude::*;

use crate::model::{
    adds_defaults, has_default_envs, active_not_of_project, dev_slug, env_not_of_project, env_of_project, env_other_than,
    lemma_unique_rows, lemma_with_active_wf, lemma_with_env_wf, lemma_with_link_wf,
    lemma_with_project_wf, lemma_with_secret_wf, lemma_without_secret_wf, link_not_of_project, prod_slug,
    project_other_than, restored, secret_not_of_env, secret_of_env,
    secret_entry, secret_other_than, ActiveRow, DbState, EnvRow, LinkRow, ProjectRow, SecretRow,
};
use crate::paths::{spec_path_clean, spec_path_parent};
use crate::seq_facts::{
    lemma_filter_and, lemma_filter_elements, lemma_filter_filter_implied, lemma_filter_map,
    lemma_filter_none,
};

verus! {

/// The value of a secret, given a row that holds it.
proof fn lemma_secret_value_at(s: DbState, k: int)
    requires
        s.unique_keys(),
        0 <= k < s.secrets.len(),
    ensures
        s.secret_value(s.secrets[k].env_id, s.secrets[k].key) == Some(s.secrets[k].value),
{
    lemma_unique_rows(s);
    let e = s.secrets[k].env_id;
    let key = s.secrets[k].key;
    assert(s.has_secret(e, key));
    let j = choose|j: int| 0 <= j < s.secrets.len() && #[trigger] s.secrets[j].env_id == e && s.secrets[j].key == key;
    assert(j == k);
}

/// Reading a secret back gives the value last written to it.
pub proof fn law_secret_read_after_write(s: DbState, r: SecretRow)
    requires
        s.wf(),
        s.has_env_id(r.env_id),
    ensures
        s.with_secret(r).secret_value(r.env_id, r.key) == Some(r.value),
{
    let t = s.with_secret(r);
    lemma_with_secret_wf(s, r);
    lemma_secret_value_at(t, t.secrets.len() - 1);
}

/// Writing a secret leaves the value of every other secret as it was.
pub proof fn law_secret_write_keeps_others(s: DbState, r: SecretRow, env_id: Seq<char>, key: Seq<char>)
    requires
        s.wf(),
        s.has_env_id(r.env_id),
        !(env_id == r.env_id && key == r.key),
    ensures
        s.with_secret(r).secret_value(env_id, key) == s.secret_value(env_id, key),
{
    let t = s.with_secret(r);
    lemma_with_secret_wf(s, r);
    let p = secret_other_than(r.env_id, r.key);
    let f = s.secrets.filter(p);
    lemma_filter_elements(s.secrets, p);
    if s.has_secret(env_id, key) {
        let k = choose|k: int| 0 <= k < s.secrets.len() && #[trigger] s.secrets[k].env_id == env_id && s.secrets[k].key == key;
        lemma_secret_value_at(s, k);
        assert(p(s.secrets[k]));
        assert(f.contains(s.secrets[k]));
        let m = choose|m: int| 0 <= m < f.len() && f[m] == s.secrets[k];
        assert(t.secrets[m] == f[m]);
        lemma_secret_value_at(t, m);
    } else if t.has_secret(env_id, key) {
        let m = choose|m: int| 0 <= m < t.secrets.len() && #[trigger] t.secrets[m].env_id == env_id && t.secrets[m].key == key;
        if m < f.len() {
            assert(t.secrets[m] == f[m]);
            assert(s.secrets.contains(f[m]));
            let k = choose|k: int| 0 <= k < s.secrets.len() && s.secrets[k] == f[m];
            assert(s.secrets[k].env_id == env_id && s.secrets[k].key == key);
        } else {
            assert(t.secrets[m] == r);
        }
    }
}

/// After a secret is removed, it has no value; every other secret keeps its value.
pub proof fn law_secret_unset(s: DbState, env_id: Seq<char>, key: Seq<char>, other_env: Seq<char>, other_key: Seq<char>)
    requires
        s.wf(),
        !(other_env == env_id && other_key == key),
    ensures
        s.without_secret(env_id, key).secret_value(env_id, key) is None,
        s.without_secret(env_id, key).secret_value(other_env, other_key) == s.secret_value(other_env, other_key),
{
    let t = s.without_secret(env_id, key);
    lemma_without_secret_wf(s, env_id, key);
    let p = secret_other_than(env_id, key);
    lemma_filter_elements(s.secrets, p);
    if t.has_secret(env_id, key) {
        let m = choose|m: int| 0 <= m < t.secrets.len() && #[trigger] t.secrets[m].env_id == env_id && t.secrets[m].key == key;
        assert(p(t.secrets[m]));
    }
    if s.has_secret(other_env, other_key) {
        let k = choose|k: int| 0 <= k < s.secrets.len() && #[trigger] s.secrets[k].env_id == other_env && s.secrets[k].key == other_key;
        lemma_secret_value_at(s, k);
        assert(p(s.secrets[k]));
        assert(t.secrets.contains(s.secrets[k]));
        let m = choose|m: int| 0 <= m < t.secrets.len() && t.secrets[m] == s.secrets[k];
        lemma_secret_value_at(t, m);
    } else if t.has_secret(other_env, other_key) {
        let m = choose|m: int| 0 <= m < t.secrets.len() && #[trigger] t.secrets[m].env_id == other_env && t.secrets[m].key == other_key;
        assert(s.secrets.contains(t.secrets[m]));
        let k = choose|k: int| 0 <= k < s.secrets.len() && s.secrets[k] == t.secrets[m];
        assert(s.secrets[k].env_id == other_env && s.secrets[k].key == other_key);
    }
}

/// Removing a secret leaves the other secrets of its environment as they
/// were and in their order, and the secrets of every other environment as
/// they were.
pub proof fn law_unset_keeps_order(s: DbState, env_id: Seq<char>, key: Seq<char>, other_env: Seq<char>)
    requires
        other_env != env_id,
    ensures
        s.without_secret(env_id, key).secrets_of(env_id) == s.secrets_of(env_id).filter(
            |e: (Seq<char>, Seq<char>)| e.0 != key,
        ),
        s.without_secret(env_id, key).secrets_of(other_env) == s.secrets_of(other_env),
{
    let p = secret_other_than(env_id, key);
    let q = secret_of_env(env_id);
    let r = |x: SecretRow| x.key != key;
    let c = |x: SecretRow| x.env_id == env_id && x.key != key;
    let f = |x: SecretRow| secret_entry(x);
    let g = |e: (Seq<char>, Seq<char>)| e.0 != key;
    assert forall|x: SecretRow| #[trigger] c(x) == (p(x) && q(x)) by {}
    assert forall|x: SecretRow| #[trigger] c(x) == (q(x) && r(x)) by {}
    lemma_filter_and(s.secrets, p, q, c);
    lemma_filter_and(s.secrets, q, r, c);
    assert forall|x: SecretRow| #[trigger] r(x) == g(f(x)) by {}
    lemma_filter_map(s.secrets.filter(q), f, r, g);
    let o = secret_of_env(other_env);
    assert forall|x: SecretRow| #[trigger] o(x) implies p(x) by {}
    lemma_filter_filter_implied(s.secrets, p, o);
}

/// Writing a secret of one environment leaves the secrets of every other
/// environment, and their order, as they were.
pub proof fn law_secrets_isolated(s: DbState, r: SecretRow, other_env: Seq<char>)
    requires
        other_env != r.env_id,
    ensures
        s.with_secret(r).secrets_of(other_env) == s.secrets_of(other_env),
{
    let p = secret_other_than(r.env_id, r.key);
    let q = secret_of_env(other_env);
    assert forall|x: SecretRow| #[trigger] q(x) implies p(x) by {}
    lemma_filter_filter_implied(s.secrets, p, q);
    s.secrets.filter(p).lemma_filter_push(r, q);
}

/// Creating a project adds exactly that project, after the existing ones,
/// which stay as they were; its id and its name are those of no existing
/// project.
pub proof fn law_create_project_adds_one(s: DbState, p: ProjectRow, dev_id: Seq<char>, prod_id: Seq<char>)
    requires
        s.can_add_project(p, dev_id, prod_id),
    ensures
        s.with_project(p, dev_id, prod_id).projects == s.projects.push(p),
        forall|i: int| 0 <= i < s.projects.len() ==> #[trigger] s.projects[i].id != p.id && s.projects[i].name != p.name,
{
    assert forall|i: int| 0 <= i < s.projects.len() implies #[trigger] s.projects[i].id != p.id && s.projects[i].name != p.name by {
        if s.projects[i].id == p.id {
            assert(s.has_project(p.id));
        }
        if s.projects[i].name == p.name {
            assert(s.has_project_named(p.name));
        }
    }
}

/// A new project has exactly its `dev` and `prod` environments, in that
/// order, `dev` as its active environment, and is found by id and by name.
pub proof fn law_new_project_defaults(s: DbState, p: ProjectRow, dev_id: Seq<char>, prod_id: Seq<char>)
    requires
        s.wf(),
        s.can_add_project(p, dev_id, prod_id),
    ensures
        s.with_project(p, dev_id, prod_id).envs_of(p.id) == seq![
            EnvRow { id: dev_id, project_id: p.id, slug: dev_slug() },
            EnvRow { id: prod_id, project_id: p.id, slug: prod_slug() },
        ],
        s.with_project(p, dev_id, prod_id).active_slug(p.id) == Some(dev_slug()),
        s.with_project(p, dev_id, prod_id).project_by_id(p.id) == Some(p),
        s.with_project(p, dev_id, prod_id).project_by_name(p.name) == Some(p),
{
    let t = s.with_project(p, dev_id, prod_id);
    lemma_with_project_wf(s, p, dev_id, prod_id);
    let dev = EnvRow { id: dev_id, project_id: p.id, slug: dev_slug() };
    let prod = EnvRow { id: prod_id, project_id: p.id, slug: prod_slug() };
    assert forall|i: int| 0 <= i < s.envs.len() implies !env_of_project(p.id)(#[trigger] s.envs[i]) by {
        assert(s.has_project(s.envs[i].project_id));
    }
    lemma_filter_none(s.envs, env_of_project(p.id));
    s.envs.lemma_filter_push(dev, env_of_project(p.id));
    s.envs.push(dev).lemma_filter_push(prod, env_of_project(p.id));
    assert(t.envs_of(p.id) =~= seq![dev, prod]);
    crate::model::lemma_active_slug_at(t, t.active.len() - 1);
    crate::model::lemma_project_by_id_at(t, t.projects.len() - 1);
    crate::model::lemma_project_by_name_at(t, t.projects.len() - 1);
}

/// After an environment is added it is found by its key and by its id, and
/// adding another with the same project and slug is refused.
pub proof fn law_env_found_after_create(s: DbState, e: EnvRow, other: EnvRow)
    requires
        s.wf(),
        s.can_add_env(e),
        other.project_id == e.project_id,
        other.slug == e.slug,
    ensures
        s.with_env(e).env_by_key(e.project_id, e.slug) == Some(e),
        s.with_env(e).env_by_id(e.id) == Some(e),
        !s.with_env(e).can_add_env(other),
{
    let t = s.with_env(e);
    lemma_with_env_wf(s, e);
    crate::model::lemma_env_by_key_at(t, t.envs.len() - 1);
    crate::model::lemma_env_by_id_at(t, t.envs.len() - 1);
}

/// After an environment is deleted it is gone, and so are its secrets.
pub proof fn law_env_delete(s: DbState, id: Seq<char>)
    requires
        s.wf(),
    ensures
        s.without_env(id).env_by_id(id) is None,
        s.without_env(id).secrets_of(id) == Seq::<(Seq<char>, Seq<char>)>::empty(),
{
    let t = s.without_env(id);
    lemma_filter_elements(s.envs, env_other_than(id));
    lemma_filter_elements(s.secrets, secret_not_of_env(id));
    if t.has_env_id(id) {
        let k = choose|k: int| 0 <= k < t.envs.len() && #[trigger] t.envs[k].id == id;
        assert(env_other_than(id)(t.envs[k]));
    }
    assert forall|i: int| 0 <= i < t.secrets.len() implies !secret_of_env(id)(#[trigger] t.secrets[i]) by {
        assert(secret_not_of_env(id)(t.secrets[i]));
    }
    lemma_filter_none(t.secrets, secret_of_env(id));
    assert(t.secrets_of(id) =~= Seq::<(Seq<char>, Seq<char>)>::empty());
}

/// Deleting a project removes every row that refers to it: the project, its
/// environments, their secrets, its directory links and its active state.
pub proof fn law_project_delete_cascades(s: DbState, project_id: Seq<char>, env_id: Seq<char>)
    requires
        s.wf(),
        s.env_in_project(env_id, project_id),
    ensures
        !s.without_project(project_id).has_project(project_id),
        s.without_project(project_id).envs_of(project_id) == Seq::<EnvRow>::empty(),
        s.without_project(project_id).secrets_of(env_id) == Seq::<(Seq<char>, Seq<char>)>::empty(),
        !s.without_project(project_id).has_active(project_id),
        forall|i: int|
            0 <= i < s.without_project(project_id).links.len() ==> #[trigger] s.without_project(
                project_id,
            ).links[i].project_id != project_id,
{
    let t = s.without_project(project_id);
    let pid = project_id;
    lemma_filter_elements(s.projects, project_other_than(pid));
    lemma_filter_elements(s.envs, env_not_of_project(pid));
    lemma_filter_elements(s.secrets, s.secret_survives(pid));
    lemma_filter_elements(s.links, link_not_of_project(pid));
    lemma_filter_elements(s.active, active_not_of_project(pid));
    if t.has_project(pid) {
        let k = choose|k: int| 0 <= k < t.projects.len() && #[trigger] t.projects[k].id == pid;
        assert(project_other_than(pid)(t.projects[k]));
    }
    if t.has_active(pid) {
        let k = choose|k: int| 0 <= k < t.active.len() && #[trigger] t.active[k].project_id == pid;
        assert(active_not_of_project(pid)(t.active[k]));
    }
    assert forall|i: int| 0 <= i < t.envs.len() implies !env_of_project(pid)(#[trigger] t.envs[i]) by {
        assert(env_not_of_project(pid)(t.envs[i]));
    }
    lemma_filter_none(t.envs, env_of_project(pid));
    assert forall|i: int| 0 <= i < t.secrets.len() implies !secret_of_env(env_id)(#[trigger] t.secrets[i]) by {
        assert(s.secret_survives(pid)(t.secrets[i]));
    }
    lemma_filter_none(t.secrets, secret_of_env(env_id));
    assert(t.secrets_of(env_id) =~= Seq::<(Seq<char>, Seq<char>)>::empty());
    assert forall|i: int| 0 <= i < t.links.len() implies #[trigger] t.links[i].project_id != pid by {
        assert(link_not_of_project(pid)(t.links[i]));
    }
}

/// The active environment read back is the one last recorded.
pub proof fn law_active_read_after_write(s: DbState, a: ActiveRow)
    requires
        s.wf(),
        s.has_project(a.project_id),
    ensures
        s.with_active(a).active_slug(a.project_id) == Some(a.slug),
{
    let t = s.with_active(a);
    lemma_with_active_wf(s, a);
    crate::model::lemma_active_slug_at(t, t.active.len() - 1);
}

/// A linked directory, given as a clean path, resolves to its project.
pub proof fn law_link_then_resolve(s: DbState, l: LinkRow)
    requires
        s.wf(),
        s.has_project(l.project_id),
        spec_path_clean(l.path) == l.path,
    ensures
        s.with_link(l).project_for_path(l.path) == s.project_by_id(l.project_id),
        s.with_link(l).project_for_path(l.path) is Some,
{
    let t = s.with_link(l);
    lemma_with_link_wf(s, l);
    crate::model::lemma_link_target_at(t, t.links.len() - 1);
    assert(t.linked_project(l.path) == s.project_by_id(l.project_id));
    let fuel = (l.path.len() + 1) as nat;
    assert(t.resolve_from(l.path, fuel) == t.linked_project(l.path));
}

/// Restoring the dump of a store, whose tables keep the constraints, gives
/// back exactly those tables, whatever the store it is restored into held.
pub proof fn law_restore_of_dump(current: DbState, dumped: DbState)
    requires
        dumped.wf(),
    ensures
        restored(current, dumped) == dumped,
{
}


/// Restoring default environments changes nothing in a store where every
/// project has them already.
pub proof fn law_defaults_idempotent(old: DbState, new: DbState)
    requires
        old.wf(),
        new.wf(),
        has_default_envs(old),
        adds_defaults(old, new),
    ensures
        new == old,
{
    if new.envs.len() > old.envs.len() {
        let i = old.envs.len() as int;
        let e = new.envs[i];
        assert(e.slug == dev_slug() || e.slug == prod_slug());
        assert(!old.has_env(e.project_id, e.slug));
        assert(new.has_project(e.project_id));
        let k = choose|k: int| 0 <= k < new.projects.len() && #[trigger] new.projects[k].id == e.project_id;
        assert(old.projects[k].id == e.project_id);
        assert(old.has_env(old.projects[k].id, dev_slug()));
        assert(old.has_env(old.projects[k].id, prod_slug()));
    }
    assert(new.envs =~= new.envs.subrange(0, old.envs.len() as int));
    assert(new =~= old);
}

/// After a project is deleted by name, no project has that name.
pub proof fn law_project_delete_by_name(s: DbState, name: Seq<char>)
    requires
        s.wf(),
        s.project_by_name(name) is Some,
    ensures
        !s.without_project(s.project_by_name(name)->0.id).has_project_named(name),
{
    let p = s.project_by_name(name)->0;
    let t = s.without_project(p.id);
    lemma_unique_rows(s);
    let k = choose|k: int| 0 <= k < s.projects.len() && #[trigger] s.projects[k].name == name;
    assert(p == s.projects[k]);
    lemma_filter_elements(s.projects, project_other_than(p.id));
    if t.has_project_named(name) {
        let m = choose|m: int| 0 <= m < t.projects.len() && #[trigger] t.projects[m].name == name;
        assert(project_other_than(p.id)(t.projects[m]));
        assert(s.projects.contains(t.projects[m]));
        let j = choose|j: int| 0 <= j < s.projects.len() && s.projects[j] == t.projects[m];
        assert(s.projects[j].name == name);
        assert(j == k);
    }
}

/// The directory `k` levels above `path`: `path` itself for 0, then one
/// parent after another; none once a directory has no parent.
pub open spec fn ancestor(path: Seq<char>, k: nat) -> Option<Seq<char>>
    decreases k,
{
    if k == 0 {
        Some(path)
    } else {
        match ancestor(path, (k - 1) as nat) {
            Some(a) => spec_path_parent(a),
            None => None,
        }
    }
}

/// Every level below an existing ancestor exists too.
proof fn lemma_ancestor_below(path: Seq<char>, k: nat, j: nat)
    requires
        j <= k,
        ancestor(path, k) is Some,
    ensures
        ancestor(path, j) is Some,
    decreases k - j,
{
    if j < k {
        lemma_ancestor_below(path, k, (j + 1) as nat);
    }
}

/// Resolving from level `j` with fuel for the levels left reaches the link
/// at level `k`.
proof fn lemma_resolve_reaches(s: DbState, c: Seq<char>, k: nat, root: Seq<char>, j: nat, fuel: nat)
    requires
        ancestor(c, k) == Some(root),
        s.linked_project(root) is Some,
        forall|i: nat| i < k ==> (#[trigger] ancestor(c, i) matches Some(a) ==> s.linked_project(a) is None),
        j <= k,
        fuel >= k - j + 1,
    ensures
        ancestor(c, j) is Some,
        s.resolve_from(ancestor(c, j)->Some_0, fuel) == s.linked_project(root),
    decreases k - j,
{
    lemma_ancestor_below(c, k, j);
    if j < k {
        lemma_ancestor_below(c, k, (j + 1) as nat);
        let a = ancestor(c, j)->Some_0;
        assert(s.linked_project(a) is None);
        assert(ancestor(c, (j + 1) as nat) == spec_path_parent(a));
        lemma_resolve_reaches(s, c, k, root, (j + 1) as nat, (fuel - 1) as nat);
    }
}

/// A directory belongs to the project linked to its nearest linked ancestor,
/// however many levels above it that ancestor is. Every parent is shorter
/// than its child, so an ancestor is at most as many levels up as the
/// cleaned path has characters.
pub proof fn law_nearest_linked_ancestor(s: DbState, dir: Seq<char>, k: nat, root: Seq<char>)
    requires
        ancestor(spec_path_clean(dir), k) == Some(root),
        s.linked_project(root) is Some,
        forall|i: nat|
            i < k ==> (#[trigger] ancestor(spec_path_clean(dir), i) matches Some(a) ==> s.linked_project(a) is None),
        k <= spec_path_clean(dir).len(),
    ensures
        s.project_for_path(dir) == s.linked_project(root),
{
    lemma_resolve_reaches(s, spec_path_clean(dir), k, root, 0, (spec_path_clean(dir).len() + 1) as nat);
}

} // verus!
