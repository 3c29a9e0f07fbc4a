//! Integrity of a database: the migrations it records against the migration
//! files at hand, the migrations still to apply, and the default
//! environments every project must have.

use vstd::prelude::*;
use vstd::string::StringSliceAdditionalSpecFns;

use crate::db::{new_id, DbError, DbManager};
use crate::encoding::{md5_hex, spec_hex_lower, spec_md5};
use crate::model::{
    adds_defaults, dev_slug, has_default_envs, ids_fit, lemma_adds_defaults_refl,
    lemma_adds_defaults_step, prod_slug, project_rows, with_defaults, with_defaults_upto, DbState,
};
use crate::text::{ends_with, spec_ends_with, to_owned_string};

verus! {

/// An integrity problem of the recorded migrations.
#[derive(Debug, PartialEq, Eq)]
pub enum IntegrityError {
    /// The recorded digest of this migration differs from its file's.
    Corruption(String),
    /// No file exists for this recorded migration.
    MissingFile(String),
}

/// Why the migrations of a database cannot be run.
#[derive(Debug, PartialEq, Eq)]
pub enum MigrationError {
    /// The recorded digest of this migration differs from its file's.
    Corruption(String),
    /// No file exists for this recorded migration.
    MissingFile(String),
}

/// The library's errors.
#[derive(Debug, PartialEq, Eq)]
pub enum Error {
    Integrity(IntegrityError),
}

/// An integrity problem, abstractly.
pub enum MigrationIssue {
    Corrupted(Seq<char>),
    Missing(Seq<char>),
}

impl View for IntegrityError {
    type V = MigrationIssue;

    open spec fn view(&self) -> MigrationIssue {
        match self {
            IntegrityError::Corruption(name) => MigrationIssue::Corrupted(name@),
            IntegrityError::MissingFile(name) => MigrationIssue::Missing(name@),
        }
    }
}

impl View for MigrationError {
    type V = MigrationIssue;

    open spec fn view(&self) -> MigrationIssue {
        match self {
            MigrationError::Corruption(name) => MigrationIssue::Corrupted(name@),
            MigrationError::MissingFile(name) => MigrationIssue::Missing(name@),
        }
    }
}

/// Migration entries (name, MD5 hex digest) as text.
pub open spec fn migration_entries(v: Seq<(String, String)>) -> Seq<(Seq<char>, Seq<char>)> {
    v.map_values(|e: (String, String)| (e.0@, e.1@))
}

/// The digest listed for migration `name`: that of its first entry.
pub open spec fn lookup_md5(entries: Seq<(Seq<char>, Seq<char>)>, name: Seq<char>) -> Option<Seq<char>>
    decreases entries.len(),
{
    if entries.len() == 0 {
        None
    } else if entries[0].0 == name {
        Some(entries[0].1)
    } else {
        lookup_md5(entries.drop_first(), name)
    }
}

/// The first recorded migration, in the order given, whose file is missing
/// or whose file has another digest.
pub open spec fn first_issue(
    applied: Seq<(Seq<char>, Seq<char>)>,
    files: Seq<(Seq<char>, Seq<char>)>,
) -> Option<MigrationIssue>
    decreases applied.len(),
{
    if applied.len() == 0 {
        None
    } else {
        match lookup_md5(files, applied[0].0) {
            None => Some(MigrationIssue::Missing(applied[0].0)),
            Some(md5) => if md5 != applied[0].1 {
                Some(MigrationIssue::Corrupted(applied[0].0))
            } else {
                first_issue(applied.drop_first(), files)
            },
        }
    }
}

/// A migration file is not yet recorded as applied.
pub open spec fn not_applied(applied: Seq<(Seq<char>, Seq<char>)>) -> spec_fn((Seq<char>, Seq<char>)) -> bool {
    |f: (Seq<char>, Seq<char>)| lookup_md5(applied, f.0) is None
}

fn copy_entry(e: &(String, String)) -> (r: (String, String))
    ensures
        r.0@ == e.0@,
        r.1@ == e.1@,
{
    (e.0.clone(), e.1.clone())
}

fn find_md5(entries: &Vec<(String, String)>, name: &str) -> (r: Option<usize>)
    ensures
        match r {
            Some(i) => i < entries@.len() && lookup_md5(migration_entries(entries@), name@) == Some(
                entries@[i as int].1@,
            ),
            None => lookup_md5(migration_entries(entries@), name@) is None,
        },
{
    let ghost all = migration_entries(entries@);
    let n = entries.len();
    assert(all.subrange(0, n as int) =~= all);
    for i in 0..n
        invariant
            n == entries@.len(),
            all == migration_entries(entries@),
            lookup_md5(all, name@) == lookup_md5(all.subrange(i as int, n as int), name@),
    {
        let ghost rest = all.subrange(i as int, n as int);
        assert(rest[0] == all[i as int]);
        if crate::text::str_equal(entries[i].0.as_str(), name) {
            return Some(i);
        }
        assert(rest.drop_first() =~= all.subrange(i + 1, n as int));
    }
    assert(all.subrange(n as int, n as int).len() == 0);
    None
}

/// Checks the recorded migrations against the migration files: each
/// recorded migration must have a file with the same digest. Gives the
/// files back where all do, else the first one, in the recorded order,
/// that does not.
pub fn verify_integrity(applied: &Vec<(String, String)>, files: &Vec<(String, String)>) -> (r: Result<
    Vec<(String, String)>,
    IntegrityError,
>)
    ensures
        match r {
            Ok(v) => first_issue(migration_entries(applied@), migration_entries(files@)) is None
                && migration_entries(v@) == migration_entries(files@),
            Err(e) => first_issue(migration_entries(applied@), migration_entries(files@)) == Some(
                e@,
            ),
        },
{
    let ghost all = migration_entries(applied@);
    let ghost fs = migration_entries(files@);
    let n = applied.len();
    assert(all.subrange(0, n as int) =~= all);
    for i in 0..n
        invariant
            n == applied@.len(),
            all == migration_entries(applied@),
            fs == migration_entries(files@),
            first_issue(all, fs) == first_issue(all.subrange(i as int, n as int), fs),
    {
        let ghost rest = all.subrange(i as int, n as int);
        assert(rest[0] == all[i as int]);
        match find_md5(files, applied[i].0.as_str()) {
            None => {
                return Err(IntegrityError::MissingFile(applied[i].0.clone()));
            },
            Some(k) => {
                if !(files[k].1 == applied[i].1) {
                    return Err(IntegrityError::Corruption(applied[i].0.clone()));
                }
            },
        }
        assert(rest.drop_first() =~= all.subrange(i + 1, n as int));
    }
    assert(all.subrange(n as int, n as int).len() == 0);
    let mut out: Vec<(String, String)> = Vec::new();
    let m = files.len();
    for j in 0..m
        invariant
            m == files@.len(),
            fs == migration_entries(files@),
            migration_entries(out@) =~= fs.take(j as int),
    {
        out.push(copy_entry(&files[j]));
        assert(fs.take(j + 1) =~= fs.take(j as int).push(fs[j as int]));
    }
    assert(fs.take(m as int) =~= fs);
    Ok(out)
}

/// The migration files not yet recorded as applied, in file order.
pub fn pending_migrations(applied: &Vec<(String, String)>, files: &Vec<(String, String)>) -> (r: Vec<
    (String, String),
>)
    ensures
        migration_entries(r@) == migration_entries(files@).filter(
            not_applied(migration_entries(applied@)),
        ),
{
    let ghost fs = migration_entries(files@);
    let ghost pred = not_applied(migration_entries(applied@));
    let mut out: Vec<(String, String)> = Vec::new();
    let m = files.len();
    for j in 0..m
        invariant
            m == files@.len(),
            fs == migration_entries(files@),
            pred == not_applied(migration_entries(applied@)),
            migration_entries(out@) == fs.take(j as int).filter(pred),
    {
        proof {
            crate::seq_facts::lemma_filter_take_step(fs, pred, j as int);
        }
        if find_md5(applied, files[j].0.as_str()).is_none() {
            let ghost before = out@;
            out.push(copy_entry(&files[j]));
            assert(migration_entries(out@) =~= migration_entries(before).push(fs[j as int]));
        }
    }
    assert(fs.take(m as int) =~= fs);
    out
}

/// What running the migrations calls for: where the recorded migrations
/// pass the integrity check, the migration files still to apply; else the
/// first problem found.
pub fn plan_migrations(applied: &Vec<(String, String)>, files: &Vec<(String, String)>) -> (r: Result<
    Vec<(String, String)>,
    MigrationError,
>)
    ensures
        match first_issue(migration_entries(applied@), migration_entries(files@)) {
            None => r matches Ok(v) && migration_entries(v@) == migration_entries(files@).filter(
                not_applied(migration_entries(applied@)),
            ),
            Some(issue) => r matches Err(e) && e@ == issue,
        },
{
    match verify_integrity(applied, files) {
        Ok(_) => Ok(pending_migrations(applied, files)),
        Err(IntegrityError::Corruption(name)) => Err(MigrationError::Corruption(name)),
        Err(IntegrityError::MissingFile(name)) => Err(MigrationError::MissingFile(name)),
    }
}

/// Looking a name up in two lists, one after the other.
proof fn lemma_lookup_concat(a: Seq<(Seq<char>, Seq<char>)>, b: Seq<(Seq<char>, Seq<char>)>, n: Seq<char>)
    ensures
        lookup_md5(a + b, n) == match lookup_md5(a, n) {
            Some(d) => Some(d),
            None => lookup_md5(b, n),
        },
    decreases a.len(),
{
    if a.len() > 0 {
        assert((a + b).drop_first() =~= a.drop_first() + b);
        assert((a + b)[0] == a[0]);
        lemma_lookup_concat(a.drop_first(), b, n);
    } else {
        assert(a + b =~= b);
    }
}

/// Looking a name up among the files not yet applied.
proof fn lemma_lookup_pending(applied: Seq<(Seq<char>, Seq<char>)>, files: Seq<(Seq<char>, Seq<char>)>, n: Seq<char>)
    ensures
        lookup_md5(files.filter(not_applied(applied)), n) == if lookup_md5(applied, n) is None {
            lookup_md5(files, n)
        } else {
            None
        },
    decreases files.len(),
{
    let p = not_applied(applied);
    if files.len() == 0 {
        reveal(Seq::filter);
        assert(files.filter(p) =~= Seq::<(Seq<char>, Seq<char>)>::empty());
    } else {
        let x = files[0];
        let rest = files.drop_first();
        assert(files =~= seq![x] + rest);
        Seq::filter_distributes_over_add(seq![x], rest, p);
        assert(seq![x] =~= Seq::<(Seq<char>, Seq<char>)>::empty().push(x));
        Seq::<(Seq<char>, Seq<char>)>::empty().lemma_filter_push(x, p);
        reveal(Seq::filter);
        assert(Seq::<(Seq<char>, Seq<char>)>::empty().filter(p) =~= Seq::<(Seq<char>, Seq<char>)>::empty());
        lemma_lookup_pending(applied, rest, n);
        lemma_lookup_concat(seq![x].filter(p), rest.filter(p), n);
        let one = seq![x];
        assert(one.drop_first() =~= Seq::<(Seq<char>, Seq<char>)>::empty());
        assert(lookup_md5(Seq::<(Seq<char>, Seq<char>)>::empty(), n) is None);
        assert(lookup_md5(files, n) == if x.0 == n { Some(x.1) } else { lookup_md5(rest, n) });
        if p(x) {
            assert(one.filter(p) =~= one);
            assert(lookup_md5(one, n) == if x.0 == n { Some(x.1) } else { lookup_md5(one.drop_first(), n) });
        } else {
            assert(one.filter(p) =~= Seq::<(Seq<char>, Seq<char>)>::empty());
        }
    }
}

/// Where the recorded migrations pass the integrity check, every recorded
/// name has the digest of its file.
proof fn lemma_recorded_match_files(applied: Seq<(Seq<char>, Seq<char>)>, files: Seq<(Seq<char>, Seq<char>)>, n: Seq<char>)
    requires
        first_issue(applied, files) is None,
    ensures
        lookup_md5(applied, n) matches Some(d) ==> lookup_md5(files, n) == Some(d),
    decreases applied.len(),
{
    if applied.len() > 0 && applied[0].0 != n {
        lemma_recorded_match_files(applied.drop_first(), files, n);
    }
}

/// A migration run: where the recorded migrations pass the integrity check,
/// the files not yet applied are recorded after them, and then the
/// recorded migrations are exactly the files at hand, each name with its
/// file's digest and no other name.
pub proof fn law_migration_run_records_files(
    applied: Seq<(Seq<char>, Seq<char>)>,
    files: Seq<(Seq<char>, Seq<char>)>,
    name: Seq<char>,
)
    requires
        first_issue(applied, files) is None,
    ensures
        lookup_md5(applied + files.filter(not_applied(applied)), name) == lookup_md5(files, name),
{
    lemma_lookup_concat(applied, files.filter(not_applied(applied)), name);
    lemma_lookup_pending(applied, files, name);
    lemma_recorded_match_files(applied, files, name);
}

/// What to do about the migrations of a database.
pub enum MigrationAction {
    /// Apply these migration files, in this order.
    Apply(Vec<(String, String)>),
    /// The database fails its integrity check for this reason: delete the
    /// database file and start over.
    ResetDatabase(MigrationError),
}

/// Decides what running the migrations does. Where the recorded migrations
/// pass the integrity check, the files still to apply. Where they do not, a
/// database that was not just reset is deleted and started over; one that
/// was just reset and still fails gives the error.
pub fn migration_action(
    applied: &Vec<(String, String)>,
    files: &Vec<(String, String)>,
    after_reset: bool,
) -> (r: Result<MigrationAction, MigrationError>)
    ensures
        match first_issue(migration_entries(applied@), migration_entries(files@)) {
            None => r matches Ok(MigrationAction::Apply(v)) && migration_entries(v@)
                == migration_entries(files@).filter(not_applied(migration_entries(applied@))),
            Some(issue) => if after_reset {
                r matches Err(e) && e@ == issue
            } else {
                r matches Ok(MigrationAction::ResetDatabase(e)) && e@ == issue
            },
        },
{
    match plan_migrations(applied, files) {
        Ok(pending) => Ok(MigrationAction::Apply(pending)),
        Err(e) => if after_reset {
            Err(e)
        } else {
            Ok(MigrationAction::ResetDatabase(e))
        },
    }
}

/// Whether a file of the migrations directory is a migration: its name
/// ends in `.sql`.
pub fn is_migration_file(name: &str) -> (r: bool)
    ensures
        r == spec_ends_with(name@, ".sql"@),
{
    ends_with(name, ".sql")
}

/// The migration entry of a file: its name and the MD5 digest of its
/// contents in lowercase hex, or `None` for a file that is no migration.
pub fn migration_entry(name: &str, contents: &str) -> (r: Option<(String, String)>)
    ensures
        match r {
            Some(e) => spec_ends_with(name@, ".sql"@) && e.0@ == name@ && e.1@ == spec_hex_lower(
                spec_md5(contents.spec_bytes()),
            ),
            None => !spec_ends_with(name@, ".sql"@),
        },
{
    if !is_migration_file(name) {
        return None;
    }
    let bytes = contents.as_bytes_vec();
    Some((to_owned_string(name), md5_hex(bytes.as_slice())))
}

/// Id pairs as text.
pub open spec fn id_pairs(v: Seq<(String, String)>) -> Seq<(Seq<char>, Seq<char>)> {
    v.map_values(|p: (String, String)| (p.0@, p.1@))
}

/// `x` is one of the ids of the first `k` pairs.
pub open spec fn id_used(ids: Seq<(Seq<char>, Seq<char>)>, k: int, x: Seq<char>) -> bool {
    exists|j: int| 0 <= j < k && (x == #[trigger] ids[j].0 || x == ids[j].1)
}

/// Every environment added since `start` has one of the ids of the first
/// `k` pairs.
pub open spec fn added_ids_used(start: DbState, cur: DbState, ids: Seq<(Seq<char>, Seq<char>)>, k: int) -> bool {
    forall|i: int| start.envs.len() <= i < cur.envs.len() ==> id_used(ids, k, #[trigger] cur.envs[i].id)
}

/// An id of pair `k` is not yet the id of an environment of `cur`, where the
/// environments added since `start` carry ids of earlier pairs or `extra`.
proof fn lemma_id_fresh(
    start: DbState,
    cur: DbState,
    ids: Seq<(Seq<char>, Seq<char>)>,
    k: int,
    extra: Option<Seq<char>>,
    x: Seq<char>,
)
    requires
        ids_fit(start, ids),
        adds_defaults(start, cur),
        0 <= k < ids.len(),
        forall|i: int|
            start.envs.len() <= i < cur.envs.len() ==> id_used(ids, k, #[trigger] cur.envs[i].id) || extra
                == Some(cur.envs[i].id),
        x == ids[k].0 || x == ids[k].1,
        extra matches Some(y) ==> y != x,
    ensures
        !cur.has_env_id(x),
{
    if cur.has_env_id(x) {
        let i = choose|i: int| 0 <= i < cur.envs.len() && #[trigger] cur.envs[i].id == x;
        if i < start.envs.len() {
            assert(cur.envs.subrange(0, start.envs.len() as int)[i] == cur.envs[i]);
            assert(start.envs[i].id == x);
            assert(start.has_env_id(x));
            assert(ids[k] == ids[k]);
        } else {
            if id_used(ids, k, cur.envs[i].id) {
                let j = choose|j: int| 0 <= j < k && (x == #[trigger] ids[j].0 || x == ids[j].1);
                assert(ids[j] == ids[j] && ids[k] == ids[k]);
            }
        }
    }
}

/// Gives every project its missing `dev` and `prod` environments, with the
/// ids of `ids[i]` for project `i` in project order. Where the ids fit (a
/// pair per project, each id new and all different) it succeeds and the
/// store becomes exactly `with_defaults`; where every project has both
/// already, nothing changes. Otherwise it stops at the first environment it
/// cannot add, with what was added so far kept.
pub fn ensure_default_environments_with_ids(db: &mut DbManager, ids: &Vec<(String, String)>) -> (r: Result<
    (),
    DbError,
>)
    requires
        old(db).wf(),
    ensures
        final(db).wf(),
        final(db).spec_db_path() == old(db).spec_db_path(),
        adds_defaults(old(db)@, final(db)@),
        r is Ok ==> has_default_envs(final(db)@),
        r is Err ==> r == Err::<(), DbError>(DbError::ConstraintViolation),
        has_default_envs(old(db)@) ==> r is Ok && final(db)@ == old(db)@,
        ids_fit(old(db)@, id_pairs(ids@)) ==> r is Ok && final(db)@ == with_defaults(
            old(db)@,
            id_pairs(ids@),
        ),
{
    let ghost start = db@;
    let ghost idv = id_pairs(ids@);
    let projects = db.list_projects();
    let n = projects.len();
    proof {
        lemma_adds_defaults_refl(start);
        reveal_strlit("dev");
        reveal_strlit("prod");
    }
    for k in 0..n
        invariant
            n == projects@.len(),
            start == old(db)@,
            idv == id_pairs(ids@),
            idv.len() == ids@.len(),
            project_rows(projects@) == start.projects,
            db.wf(),
            db.spec_db_path() == old(db).spec_db_path(),
            adds_defaults(start, db@),
            forall|j: int|
                0 <= j < k ==> db@.has_env(#[trigger] start.projects[j].id, dev_slug())
                    && db@.has_env(start.projects[j].id, prod_slug()),
            has_default_envs(start) ==> db@ == start,
            ids_fit(start, idv) ==> db@ == with_defaults_upto(start, idv, k as nat)
                && added_ids_used(start, db@, idv, k as int),
    {
        let pid = projects[k].id.as_str();
        assert(pid@ == start.projects[k as int].id);
        proof {
            reveal_strlit("dev");
            reveal_strlit("prod");
        }
        assert("dev"@ =~= dev_slug());
        assert("prod"@ =~= prod_slug());
        let ghost before = db@;
        assert(before.projects[k as int].id == pid@);
        if k < ids.len() {
            let dev_id = ids[k].0.clone();
            assert(dev_id@ == idv[k as int].0);
            proof {
                if ids_fit(start, idv) && !before.has_env(pid@, dev_slug()) {
                    lemma_id_fresh(start, before, idv, k as int, None, dev_id@);
                    assert(before.has_project(pid@));
                }
            }
            match db.get_or_create_environment_with_id(pid, "dev", dev_id) {
                Ok(x) => {
                    proof {
                        if !before.has_env(pid@, dev_slug()) {
                            lemma_adds_defaults_step(start, before, x@);
                        }
                    }
                },
                Err(e) => {
                    return Err(e);
                },
            }
        } else {
            if db.get_environment(pid, "dev").is_err() {
                return Err(DbError::ConstraintViolation);
            }
        }
        let ghost middle = db@;
        assert(middle.projects[k as int].id == pid@);
        if k < ids.len() {
            let prod_id = ids[k].1.clone();
            assert(prod_id@ == idv[k as int].1);
            proof {
                if ids_fit(start, idv) && !middle.has_env(pid@, prod_slug()) {
                    let extra = if before.has_env(pid@, dev_slug()) {
                        None
                    } else {
                        Some(idv[k as int].0)
                    };
                    assert forall|i: int|
                        start.envs.len() <= i < middle.envs.len() implies id_used(
                        idv,
                        k as int,
                        #[trigger] middle.envs[i].id,
                    ) || extra == Some(middle.envs[i].id) by {
                        if i < before.envs.len() {
                            assert(middle.envs[i] == before.envs[i]);
                        }
                    }
                    lemma_id_fresh(start, middle, idv, k as int, extra, prod_id@);
                    assert(middle.has_project(pid@));
                }
            }
            match db.get_or_create_environment_with_id(pid, "prod", prod_id) {
                Ok(x) => {
                    proof {
                        if !middle.has_env(pid@, prod_slug()) {
                            lemma_adds_defaults_step(start, middle, x@);
                        }
                    }
                },
                Err(e) => {
                    return Err(e);
                },
            }
        } else {
            if db.get_environment(pid, "prod").is_err() {
                return Err(DbError::ConstraintViolation);
            }
        }
        proof {
            if ids_fit(start, idv) {
                assert forall|i: int|
                    start.envs.len() <= i < db@.envs.len() implies id_used(
                    idv,
                    k + 1,
                    #[trigger] db@.envs[i].id,
                ) by {
                    if i < before.envs.len() {
                        assert(db@.envs[i] == before.envs[i]);
                        assert(id_used(idv, k as int, before.envs[i].id));
                        let j = choose|j: int|
                            0 <= j < k && (before.envs[i].id == #[trigger] idv[j].0 || before.envs[i].id
                                == idv[j].1);
                        assert(idv[j] == idv[j]);
                    } else {
                        assert(db@.envs[i].id == idv[k as int].0 || db@.envs[i].id == idv[k as int].1);
                        assert(idv[k as int] == idv[k as int]);
                    }
                }
            }
        }
        assert(db@.has_env(start.projects[k as int].id, dev_slug()));
    }
    Ok(())
}

/// Whether every project has its `dev` and `prod` environments.
fn defaults_present(db: &DbManager) -> (r: bool)
    requires
        db.wf(),
    ensures
        r == has_default_envs(db@),
{
    let projects = db.list_projects();
    let n = projects.len();
    proof {
        reveal_strlit("dev");
        reveal_strlit("prod");
    }
    assert("dev"@ =~= dev_slug());
    assert("prod"@ =~= prod_slug());
    for k in 0..n
        invariant
            n == projects@.len(),
            db.wf(),
            project_rows(projects@) == db@.projects,
            forall|j: int|
                0 <= j < k ==> db@.has_env(#[trigger] db@.projects[j].id, dev_slug())
                    && db@.has_env(db@.projects[j].id, prod_slug()),
    {
        let pid = projects[k].id.as_str();
        assert(pid@ == db@.projects[k as int].id);
        proof {
            reveal_strlit("dev");
            reveal_strlit("prod");
        }
        assert("dev"@ =~= dev_slug());
        assert("prod"@ =~= prod_slug());
        if db.get_environment(pid, "dev").is_err() || db.get_environment(pid, "prod").is_err() {
            return false;
        }
    }
    true
}

/// Gives every project its `dev` and `prod` environments where it lacks
/// them. Where every project has both already, no id is drawn, nothing
/// changes and the call succeeds. Otherwise a pair of fresh random ids is
/// drawn per project and `ensure_default_environments_with_ids` does the
/// work; it stops with an error where no random bytes can be had, changing
/// nothing, or where a random id turns out to be taken.
pub fn ensure_default_environments(db: &mut DbManager) -> (r: Result<(), DbError>)
    requires
        old(db).wf(),
    ensures
        final(db).wf(),
        final(db).spec_db_path() == old(db).spec_db_path(),
        adds_defaults(old(db)@, final(db)@),
        r is Ok ==> has_default_envs(final(db)@),
        r matches Err(e) ==> e == DbError::ConstraintViolation || e == DbError::RandomUnavailable,
        has_default_envs(old(db)@) ==> r is Ok && final(db)@ == old(db)@,
        r == Err::<(), DbError>(DbError::RandomUnavailable) ==> final(db)@ == old(db)@,
{
    proof {
        lemma_adds_defaults_refl(db@);
    }
    if defaults_present(db) {
        return Ok(());
    }
    let n = db.list_projects().len();
    let mut ids: Vec<(String, String)> = Vec::new();
    for k in 0..n
        invariant
            ids@.len() == k,
            db.wf(),
            db@ == old(db)@,
            !has_default_envs(old(db)@),
            db.spec_db_path() == old(db).spec_db_path(),
            adds_defaults(old(db)@, db@),
    {
        let dev_id = match new_id() {
            Some(id) => id,
            None => {
                return Err(DbError::RandomUnavailable);
            },
        };
        let prod_id = match new_id() {
            Some(id) => id,
            None => {
                return Err(DbError::RandomUnavailable);
            },
        };
        ids.push((dev_id, prod_id));
    }
    ensure_default_environments_with_ids(db, &ids)
}

} // verus!
