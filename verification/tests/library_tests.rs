use dopper::commands::{
    choose_link_target, may_run, needs_database, needs_master_key, plan_link, plan_unset_secret,
    CommandKind, LinkPlan, UnsetPlan,
};
use dopper::clipboard::{
    clipboard_helpers, next_clipboard_step, set_clipboard, try_pipe_to_command, ClipboardError,
    ClipboardStep, PipeOutcome, Platform,
};
use dopper::clock::{decimal_string, format_timestamp, padded_decimal};
use dopper::config::{dump_path_for, get_dump_path, Config};
use dopper::db::{DbError, DbManager};
use dopper::dump::{is_consistent, DopperDump};
use dopper::env_vars::{format_dot_env, get_effective_env, get_env_slug, EffectiveEnvError};
use dopper::integrity::{
    ensure_default_environments, ensure_default_environments_with_ids, migration_action, MigrationAction, MigrationError,
    is_migration_file, migration_entry, pending_migrations, verify_integrity, IntegrityError,
};
use dopper::keychain::{
    key_after_lookup, key_from_lookup, KeyError, KeyProvider, KeychainLookup, KeychainProvider, MockKeyProvider,
};
use dopper::model::{Environment, Project};
use dopper::prompts::{is_affirmative, is_protected_environment, parse_selection, parse_usize};
use dopper::security::{derive_key, derive_key_from_salt_file, generate_salt, MasterKey, SecurityError};
use dopper::text::{ends_with, starts_with};

fn store() -> DbManager {
    DbManager::new("/tmp/dopper-library-test")
}

#[test]
fn new_store_uses_the_file_path_as_given() {
    let db = DbManager::new("/home/me/.dopper/dopper.test.db");
    assert_eq!(db.db_path(), "/home/me/.dopper/dopper.test.db");
    assert!(db.list_projects().is_empty());
}

#[test]
fn created_projects_have_distinct_ids_and_a_timestamp() {
    let mut db = store();
    let a = db.create_project("a").unwrap();
    let b = db.create_project("b").unwrap();
    assert_ne!(a.id, b.id);
    assert_eq!(a.id.len(), 36);
    // YYYY-MM-DD HH:MM:SS
    assert_eq!(a.created_at.len(), 19);
    assert_eq!(&a.created_at[4..5], "-");
    assert_eq!(&a.created_at[10..11], " ");
    assert!(a.created_at.as_str() >= "2024-01-01 00:00:00");
}

#[test]
fn create_project_with_ids_sets_up_defaults() {
    let mut db = store();
    let p = db
        .create_project_with_ids(
            "pid".to_string(),
            "proj",
            "2024-05-06 07:08:09".to_string(),
            "dev-id".to_string(),
            "prod-id".to_string(),
        )
        .unwrap();
    assert_eq!(p.id, "pid");
    assert_eq!(p.created_at, "2024-05-06 07:08:09");
    let envs = db.list_environments("pid");
    assert_eq!(envs.len(), 2);
    assert_eq!((envs[0].id.as_str(), envs[0].slug.as_str()), ("dev-id", "dev"));
    assert_eq!((envs[1].id.as_str(), envs[1].slug.as_str()), ("prod-id", "prod"));
    assert_eq!(db.get_active_environment("pid").unwrap(), "dev");
    // The same environment id twice is refused.
    let r = db.create_project_with_ids(
        "other".to_string(),
        "other",
        "t".to_string(),
        "x".to_string(),
        "x".to_string(),
    );
    assert_eq!(r.err(), Some(DbError::ConstraintViolation));
    // A taken project id is refused.
    let r = db.create_project_with_ids(
        "pid".to_string(),
        "fresh",
        "t".to_string(),
        "y".to_string(),
        "z".to_string(),
    );
    assert_eq!(r.err(), Some(DbError::ConstraintViolation));
    assert_eq!(db.list_projects().len(), 1);
}

#[test]
fn missing_rows_are_not_found() {
    let mut db = store();
    assert_eq!(db.get_project_by_id("nope").err(), Some(DbError::NotFound));
    assert_eq!(db.get_project_by_name("nope").err(), Some(DbError::NotFound));
    assert_eq!(db.get_environment("nope", "dev").err(), Some(DbError::NotFound));
    assert_eq!(db.get_environment_by_id("nope").err(), Some(DbError::NotFound));
    assert_eq!(db.get_active_environment("nope").err(), Some(DbError::NotFound));
    assert_eq!(db.delete_project("nope").err(), Some(DbError::NotFound));
    assert_eq!(db.delete_environment("nope", "dev").err(), Some(DbError::NotFound));
}

#[test]
fn references_to_missing_rows_are_refused() {
    let mut db = store();
    assert_eq!(db.set_secret("no-env", "K", "V").err(), Some(DbError::ConstraintViolation));
    assert_eq!(db.link_directory("no-project", "/x").err(), Some(DbError::ConstraintViolation));
    assert_eq!(db.set_active_environment("no-project", "dev").err(), Some(DbError::ConstraintViolation));
    assert_eq!(
        db.get_or_create_environment("no-project", "dev").err(),
        Some(DbError::ConstraintViolation)
    );
    assert_eq!(db.create_environment("no-project", "dev").err(), Some(DbError::ConstraintViolation));
}

#[test]
fn get_or_create_returns_the_existing_environment() {
    let mut db = store();
    let p = db.create_project("p").unwrap();
    let first = db.get_or_create_environment(&p.id, "staging").unwrap();
    let second = db.get_or_create_environment(&p.id, "staging").unwrap();
    assert_eq!(first.id, second.id);
    assert_eq!(db.list_environments(&p.id).len(), 3);
    let by_id = db.get_environment_by_id(&first.id).unwrap();
    assert_eq!(by_id.slug, "staging");
}

#[test]
fn create_environment_with_a_taken_id_is_refused() {
    let mut db = store();
    let p = db.create_project("p").unwrap();
    let dev = db.get_environment(&p.id, "dev").unwrap();
    let r = db.create_environment_with_id(&p.id, "qa", dev.id.clone());
    assert_eq!(r.err(), Some(DbError::ConstraintViolation));
    let qa = db.create_environment_with_id(&p.id, "qa", "qa-id".to_string()).unwrap();
    assert_eq!(qa.id, "qa-id");
    let again = db
        .get_or_create_environment_with_id(&p.id, "qa", "ignored".to_string())
        .unwrap();
    assert_eq!(again.id, "qa-id");
}

#[test]
fn deleting_an_environment_removes_its_secrets_only() {
    let mut db = store();
    let p = db.create_project("p").unwrap();
    let dev = db.get_environment(&p.id, "dev").unwrap();
    let prod = db.get_environment(&p.id, "prod").unwrap();
    db.set_secret(&dev.id, "A", "1").unwrap();
    db.set_secret(&prod.id, "A", "2").unwrap();
    db.delete_environment(&p.id, "dev").unwrap();
    assert!(db.get_secrets(&dev.id).is_empty());
    assert_eq!(db.get_secrets(&prod.id)[0].value, "2");
    assert!(db.get_environment(&p.id, "dev").is_err());
}

#[test]
fn set_secret_moves_the_key_to_the_end_and_keeps_one_row() {
    let mut db = store();
    let p = db.create_project("p").unwrap();
    let dev = db.get_environment(&p.id, "dev").unwrap();
    db.set_secret(&dev.id, "A", "1").unwrap();
    db.set_secret(&dev.id, "B", "2").unwrap();
    db.set_secret(&dev.id, "A", "3").unwrap();
    let s = db.get_secrets(&dev.id);
    assert_eq!(s.len(), 2);
    assert_eq!((s[0].key.as_str(), s[0].value.as_str()), ("B", "2"));
    assert_eq!((s[1].key.as_str(), s[1].value.as_str()), ("A", "3"));
    assert!(db.secret_exists(&dev.id, "A"));
    db.unset_secret(&dev.id, "A");
    assert!(!db.secret_exists(&dev.id, "A"));
    assert!(db.secret_exists(&dev.id, "B"));
}

#[test]
fn relinking_a_directory_replaces_its_project() {
    let mut db = store();
    let a = db.create_project("a").unwrap();
    let b = db.create_project("b").unwrap();
    db.link_directory(&a.id, "/work/x").unwrap();
    db.link_directory(&b.id, "/work/x").unwrap();
    assert_eq!(db.get_project_from_path("/work/x").unwrap().id, b.id);
    // Paths are cleaned before they are resolved.
    assert_eq!(db.get_project_from_path("/work/./x/y/..").unwrap().id, b.id);
    // The nearest linked ancestor wins.
    db.link_directory(&a.id, "/work").unwrap();
    assert_eq!(db.get_project_from_path("/work/x/deep").unwrap().id, b.id);
    assert_eq!(db.get_project_from_path("/work/z").unwrap().id, a.id);
    // Deleting the project removes its links.
    db.delete_project("b").unwrap();
    assert_eq!(db.get_project_from_path("/work/x").unwrap().id, a.id);
}

#[test]
fn restore_refuses_an_inconsistent_dump() {
    let mut db = store();
    db.create_project("keep").unwrap();
    let dump = DopperDump {
        projects: vec![],
        environments: vec![Environment {
            id: "e".to_string(),
            project_id: "missing".to_string(),
            slug: "dev".to_string(),
        }],
        secrets: vec![],
        directory_links: vec![],
        active_states: vec![],
    };
    assert!(!is_consistent(&dump));
    assert_eq!(db.restore(dump).err(), Some(DbError::ConstraintViolation));
    assert_eq!(db.list_projects().len(), 1);

    let dup = DopperDump {
        projects: vec![
            Project { id: "1".to_string(), name: "same".to_string(), created_at: String::new() },
            Project { id: "2".to_string(), name: "same".to_string(), created_at: String::new() },
        ],
        environments: vec![],
        secrets: vec![],
        directory_links: vec![],
        active_states: vec![],
    };
    assert!(!is_consistent(&dup));
}

#[test]
fn dump_of_a_store_is_consistent_and_restores_in_full() {
    let mut db = store();
    let p = db.create_project("p").unwrap();
    db.link_directory(&p.id, "/srv/p").unwrap();
    let dump = db.dump();
    assert!(is_consistent(&dump));
    assert_eq!(dump.environments.len(), 2);
    assert_eq!(dump.directory_links.len(), 1);
    assert_eq!(dump.active_states.len(), 1);
    let mut other = DbManager::new("/tmp/other");
    other.restore(dump).unwrap();
    assert_eq!(other.get_project_from_path("/srv/p").unwrap().id, p.id);
    assert_eq!(other.get_active_environment(&p.id).unwrap(), "dev");
}

#[test]
fn effective_env_drops_user_copies_of_system_variables() {
    let mut db = store();
    let p = db.create_project("p").unwrap();
    let dev = db.get_environment(&p.id, "dev").unwrap();
    db.set_secret(&dev.id, "DOPPER_ENV", "spoofed").unwrap();
    db.set_secret(&dev.id, "API", "k").unwrap();
    let vars = get_effective_env(&db, &p, "dev").unwrap();
    assert_eq!(
        vars,
        vec![
            ("API".to_string(), "k".to_string()),
            ("DOPPER_PROJECT_ID".to_string(), p.id.clone()),
            ("DOPPER_ENV".to_string(), "dev".to_string()),
        ]
    );
    let err = get_effective_env(&db, &p, "qa").unwrap_err();
    assert_eq!(
        err,
        EffectiveEnvError::EnvironmentNotFound { slug: "qa".to_string(), project_name: "p".to_string() }
    );
    assert_eq!(err.message(), "Environment 'qa' not found for project 'p'.");
}

#[test]
fn env_slug_prefers_given_then_active_then_dev() {
    let mut db = store();
    let p = db.create_project("p").unwrap();
    assert_eq!(get_env_slug(&db, &Some("qa".to_string()), &p.id), "qa");
    assert_eq!(get_env_slug(&db, &None, &p.id), "dev");
    db.set_active_environment(&p.id, "prod").unwrap();
    assert_eq!(get_env_slug(&db, &None, &p.id), "prod");
    assert_eq!(get_env_slug(&db, &None, "unknown-project"), "dev");
}

#[test]
fn dot_env_lines() {
    let vars = vec![
        ("A".to_string(), "1".to_string()),
        ("B".to_string(), "two words".to_string()),
    ];
    assert_eq!(format_dot_env(&vars), "A=1\nB=two words\n");
    assert_eq!(format_dot_env(&vec![]), "");
}

#[test]
fn timestamps_are_formatted_in_utc() {
    assert_eq!(format_timestamp(0), "1970-01-01 00:00:00");
    assert_eq!(format_timestamp(951782400), "2000-02-29 00:00:00");
    assert_eq!(format_timestamp(1725029869), "2024-08-30 14:57:49");
    assert_eq!(format_timestamp(4102444799), "2099-12-31 23:59:59");
    assert_eq!(decimal_string(0), "0");
    assert_eq!(decimal_string(18446744073709551615), "18446744073709551615");
    assert_eq!(padded_decimal(7, 2), "07");
    assert_eq!(padded_decimal(123, 2), "123");
}

#[test]
fn migrations_are_checked_in_recorded_order() {
    let files = vec![
        ("0001.sql".to_string(), "aa".to_string()),
        ("0002.sql".to_string(), "bb".to_string()),
    ];
    let applied = vec![
        ("0001.sql".to_string(), "aa".to_string()),
        ("0003.sql".to_string(), "cc".to_string()),
    ];
    assert_eq!(
        verify_integrity(&applied, &files),
        Err(IntegrityError::MissingFile("0003.sql".to_string()))
    );
    let ok = vec![("0001.sql".to_string(), "aa".to_string())];
    assert_eq!(verify_integrity(&ok, &files), Ok(files.clone()));
    assert_eq!(
        pending_migrations(&ok, &files),
        vec![("0002.sql".to_string(), "bb".to_string())]
    );
}

#[test]
fn migration_files_end_in_sql_and_carry_an_md5() {
    assert!(is_migration_file("0001_init.sql"));
    assert!(!is_migration_file("README.md"));
    assert!(migration_entry("notes.txt", "x").is_none());
    let (name, digest) = migration_entry("0001.sql", "").unwrap();
    assert_eq!(name, "0001.sql");
    assert_eq!(digest, "d41d8cd98f00b204e9800998ecf8427e");
    let (_, digest) = migration_entry("0002.sql", "abc").unwrap();
    assert_eq!(digest, "900150983cd24fb0d6963f7d28e17f72");
}

#[test]
fn key_pragma_is_lower_case_hex() {
    let key = MasterKey(vec![0x00, 0x0f, 0xab, 0xff]);
    assert_eq!(key.key_pragma(), "PRAGMA key = 'x''000fabff'''");
}

#[test]
fn salt_encoding_is_base64() {
    // "aGVsbG8=" is valid Base64 for five bytes: decoded, then too short for Argon2.
    assert_eq!(derive_key("pw", "aGVsbG8=").err(), Some(SecurityError::KeyDerivationFailed));
    assert_eq!(derive_key("pw", "not base64!").err(), Some(SecurityError::InvalidSaltEncoding));
    // Sixteen zero bytes in Base64 are a valid salt.
    assert!(derive_key("pw", "AAAAAAAAAAAAAAAAAAAAAA==").is_ok());
}

#[test]
fn salts_are_random_and_accepted_by_derive_key() {
    let a = generate_salt().unwrap();
    let b = generate_salt().unwrap();
    assert_ne!(a, b);
    // 32 bytes in padded Base64.
    assert_eq!(a.len(), 44);
    assert!(a.ends_with('='));
    let k1 = derive_key("password", &a).expect("derive");
    let k2 = derive_key("password", &a).expect("derive");
    let k3 = derive_key("other", &a).expect("derive");
    assert_eq!(k1.0.len(), 32);
    assert_eq!(k1.0, k2.0);
    assert_ne!(k1.0, k3.0);
    let from_file = derive_key_from_salt_file("password", &format!("  {}\n", a)).expect("derive");
    assert_eq!(from_file.0, k1.0);
}

#[test]
fn derive_key_errors() {
    assert_eq!(derive_key("pw", "%%%").err(), Some(SecurityError::InvalidSaltEncoding));
    // Four bytes of salt are too short for Argon2.
    assert_eq!(derive_key("pw", "AAAAAA==").err(), Some(SecurityError::KeyDerivationFailed));
}

#[test]
fn master_key_pragma_and_wipe() {
    let mut key = MasterKey(vec![0x11, 0xab]);
    assert_eq!(key.key_pragma(), "PRAGMA key = 'x''11ab'''");
    key.wipe();
    assert!(key.0.is_empty());
}

#[test]
fn keychain_provider_caches_the_key() {
    let mut provider = KeychainProvider::new();
    let first = provider.get_key().expect("a key is created");
    assert_eq!(first.len(), 64);
    assert!(first.chars().all(|c| c.is_ascii_hexdigit()));
    let second = provider.get_key().expect("cached");
    assert_eq!(first, second);
    assert_eq!(provider.read_key().expect("cached"), Some(first));
}

#[test]
fn mock_key_provider_gives_its_key() {
    let mut mock = MockKeyProvider::new("fixed");
    assert_eq!(mock.get_key().unwrap(), "fixed");
    assert_eq!(mock.read_key().unwrap(), Some("fixed".to_string()));
}

#[test]
fn clipboard_steps() {
    assert!(matches!(set_clipboard("", Platform::MacOs), ClipboardStep::Fail(ClipboardError::Empty)));
    assert!(matches!(
        set_clipboard("x", Platform::Unsupported),
        ClipboardStep::Fail(ClipboardError::Unsupported)
    ));
    assert!(matches!(set_clipboard("x", Platform::OtherUnix), ClipboardStep::Run(0)));
    assert!(matches!(
        next_clipboard_step(Platform::OtherUnix, 0, PipeOutcome::NotFound("gone".to_string())),
        ClipboardStep::Run(1)
    ));
    assert!(matches!(
        next_clipboard_step(Platform::OtherUnix, 2, PipeOutcome::NotFound("gone".to_string())),
        ClipboardStep::Fail(ClipboardError::NoHelperFound)
    ));
    assert!(matches!(
        next_clipboard_step(Platform::MacOs, 0, PipeOutcome::NotFound("gone".to_string())),
        ClipboardStep::Fail(ClipboardError::PbcopyMissing)
    ));
    assert!(matches!(
        next_clipboard_step(Platform::OtherUnix, 1, PipeOutcome::Success),
        ClipboardStep::Done
    ));
    assert_eq!(try_pipe_to_command(PipeOutcome::Success), Ok(true));
    assert_eq!(try_pipe_to_command(PipeOutcome::NotFound("x".to_string())), Ok(false));
    assert_eq!(
        try_pipe_to_command(PipeOutcome::Failed("exit 1".to_string())),
        Err(ClipboardError::HelperFailed("exit 1".to_string()))
    );
    let unix = clipboard_helpers(Platform::OtherUnix);
    assert_eq!(unix.len(), 3);
    assert_eq!(unix[1].program, "xclip");
    assert_eq!(unix[1].args, vec!["-selection".to_string(), "clipboard".to_string()]);
    assert_eq!(clipboard_helpers(Platform::Windows)[0].args, vec!["/C".to_string(), "clip".to_string()]);
    assert_eq!(
        ClipboardError::NoHelperFound.message(),
        "No clipboard helper found. Install one of: wl-copy, xclip, xsel."
    );
}

#[test]
fn dump_paths() {
    let none = Config { dump_path: None };
    assert_eq!(dump_path_for(&none, Some("/home/u")), "/home/u/.dopper/dump.json");
    assert_eq!(dump_path_for(&none, None), ".dopper/dump.json");
    let tilde = Config { dump_path: Some("~/backups/d.json".to_string()) };
    assert_eq!(dump_path_for(&tilde, Some("/home/u")), "/home/u/backups/d.json");
    assert_eq!(dump_path_for(&tilde, None), "~/backups/d.json");
    let plain = Config { dump_path: Some("/var/d.json".to_string()) };
    assert_eq!(dump_path_for(&plain, Some("/home/u")), "/var/d.json");
    assert_eq!(get_dump_path(&plain), "/var/d.json");
    assert_eq!(plain.get_dump_path(), "/var/d.json");
}

#[test]
fn prompt_answers() {
    assert!(is_affirmative("y"));
    assert!(is_affirmative("  YES \n"));
    assert!(is_affirmative("Yes"));
    assert!(!is_affirmative("no"));
    assert!(!is_affirmative("yess"));
    assert!(!is_affirmative(""));
    assert!(is_protected_environment("dev"));
    assert!(is_protected_environment("prod"));
    assert!(!is_protected_environment("staging"));
    assert_eq!(parse_selection(" 2\n", 3), Some(1));
    assert_eq!(parse_selection("0", 3), None);
    assert_eq!(parse_selection("4", 3), None);
    assert_eq!(parse_selection("two", 3), None);
    assert_eq!(parse_usize("+17"), Some(17));
    assert_eq!(parse_usize("-1"), None);
    assert_eq!(parse_usize("+"), None);
    assert_eq!(parse_usize("18446744073709551615"), Some(usize::MAX));
    assert_eq!(parse_usize("18446744073709551616"), None);
}

#[test]
fn text_prefixes_and_suffixes() {
    assert!(starts_with("~/x", "~/"));
    assert!(!starts_with("~", "~/"));
    assert!(ends_with("a.sql", ".sql"));
    assert!(!ends_with("a.sq", ".sql"));
}

#[test]
fn link_and_unset_plans() {
    let mut db = store();
    assert!(matches!(plan_link(&db, Some("x")), LinkPlan::NoProjects));
    let p = db.create_project("web").unwrap();
    db.create_project("api").unwrap();
    match plan_link(&db, Some("web")) {
        LinkPlan::Link(q) => assert_eq!(q.id, p.id),
        _ => panic!("expected a project to link"),
    }
    assert!(matches!(plan_link(&db, Some("nope")), LinkPlan::NotFound(n) if n == "nope"));
    let projects = match plan_link(&db, None) {
        LinkPlan::Choose(v) => v,
        _ => panic!("expected a menu"),
    };
    assert_eq!(projects.len(), 2);
    assert_eq!(choose_link_target(&projects, "2\n").unwrap().name, "api");
    assert!(choose_link_target(&projects, "3").is_none());

    let dev = db.get_environment(&p.id, "dev").unwrap();
    db.set_secret(&dev.id, "K", "V").unwrap();
    assert!(matches!(plan_unset_secret(&db, &p.id, "qa", "K", false), UnsetPlan::EnvironmentMissing));
    assert!(matches!(plan_unset_secret(&db, &p.id, "dev", "K", false), UnsetPlan::Confirm(id) if id == dev.id));
    assert!(matches!(plan_unset_secret(&db, &p.id, "dev", "X", false), UnsetPlan::NotSet(_)));
    assert!(matches!(plan_unset_secret(&db, &p.id, "dev", "X", true), UnsetPlan::Unset(id) if id == dev.id));
}

#[test]
fn keychain_lookups_decide_the_key() {
    assert_eq!(key_from_lookup(KeychainLookup::Found("abc".to_string())), Ok(Some("abc".to_string())));
    assert_eq!(key_from_lookup(KeychainLookup::NoEntry), Ok(None));
    let e = key_from_lookup(KeychainLookup::Failed("locked".to_string())).unwrap_err();
    assert_eq!(e.message, "Failed to retrieve key: locked");
    let fresh = || Ok::<String, KeyError>("k1".to_string());
    assert_eq!(key_after_lookup(KeychainLookup::Found("old".to_string()), fresh(), Ok(())), Ok("old".to_string()));
    assert_eq!(key_after_lookup(KeychainLookup::NoEntry, fresh(), Ok(())), Ok("k1".to_string()));
    let e = key_after_lookup(KeychainLookup::NoEntry, fresh(), Err("denied".to_string())).unwrap_err();
    assert_eq!(e.message, "Failed to save key: denied");
    let no_key = KeyError { message: "Failed to generate key: no randomness available".to_string() };
    let e = key_after_lookup(KeychainLookup::NoEntry, Err(no_key), Ok(())).unwrap_err();
    assert_eq!(e.message, "Failed to generate key: no randomness available");
    let e = key_after_lookup(KeychainLookup::Failed("locked".to_string()), fresh(), Ok(())).unwrap_err();
    assert_eq!(e.message, "Failed to retrieve key: locked");
}

#[test]
fn command_table() {
    for kind in [CommandKind::Init, CommandKind::Destroy, CommandKind::Restore] {
        assert!(!needs_database(kind));
        assert!(may_run(kind, false));
    }
    for kind in [CommandKind::Lock, CommandKind::Unlock, CommandKind::Data] {
        assert!(needs_database(kind));
        assert!(!may_run(kind, false));
        assert!(may_run(kind, true));
    }
    assert!(!needs_master_key(CommandKind::Init));
    assert!(!needs_master_key(CommandKind::Destroy));
    assert!(!needs_master_key(CommandKind::Lock));
    assert!(!needs_master_key(CommandKind::Unlock));
    assert!(needs_master_key(CommandKind::Restore));
    assert!(needs_master_key(CommandKind::Data));
}

#[test]
fn migration_action_resets_once() {
    let files = vec![("0001.sql".to_string(), "aa".to_string()), ("0002.sql".to_string(), "bb".to_string())];
    let applied = vec![("0001.sql".to_string(), "aa".to_string())];
    match migration_action(&applied, &files, false) {
        Ok(MigrationAction::Apply(p)) => assert_eq!(p, vec![("0002.sql".to_string(), "bb".to_string())]),
        _ => panic!("expected the pending migration"),
    }
    let corrupt = vec![("0001.sql".to_string(), "zz".to_string())];
    match migration_action(&corrupt, &files, false) {
        Ok(MigrationAction::ResetDatabase(e)) => assert_eq!(e, MigrationError::Corruption("0001.sql".to_string())),
        _ => panic!("expected a reset"),
    }
    assert!(matches!(
        migration_action(&corrupt, &files, true),
        Err(MigrationError::Corruption(name)) if name == "0001.sql"
    ));
}

#[test]
fn defaults_already_present_change_nothing() {
    let mut db = store();
    db.create_project("p").unwrap();
    let before = db.list_environments(&db.list_projects()[0].id);
    assert_eq!(ensure_default_environments(&mut db), Ok(()));
    let after = db.list_environments(&db.list_projects()[0].id);
    assert_eq!(before.len(), after.len());
    for (a, b) in before.iter().zip(after.iter()) {
        assert_eq!(a.id, b.id);
    }
}

#[test]
fn unset_keeps_the_order_of_the_rest() {
    let mut db = store();
    let p = db.create_project("p").unwrap();
    let dev = db.get_environment(&p.id, "dev").unwrap();
    let prod = db.get_environment(&p.id, "prod").unwrap();
    for k in ["A", "B", "C"] {
        db.set_secret(&dev.id, k, "v").unwrap();
    }
    db.set_secret(&prod.id, "B", "w").unwrap();
    db.unset_secret(&dev.id, "B");
    let keys: Vec<String> = db.get_secrets(&dev.id).into_iter().map(|s| s.key).collect();
    assert_eq!(keys, vec!["A".to_string(), "C".to_string()]);
    assert_eq!(db.get_secrets(&prod.id).len(), 1);
}

#[test]
fn defaults_with_ids_restore_a_missing_prod() {
    let mut db = store();
    let p = db.create_project("p").unwrap();
    db.delete_environment(&p.id, "prod").unwrap();
    assert!(db.get_environment(&p.id, "prod").is_err());
    let ids = vec![("new-dev".to_string(), "new-prod".to_string())];
    assert_eq!(ensure_default_environments_with_ids(&mut db, &ids), Ok(()));
    let prod = db.get_environment(&p.id, "prod").unwrap();
    assert_eq!(prod.id, "new-prod");
    // dev was there already and keeps its id.
    assert_ne!(db.get_environment(&p.id, "dev").unwrap().id, "new-dev");
    // A taken id stops the work.
    db.delete_environment(&p.id, "prod").unwrap();
    let dev_id = db.get_environment(&p.id, "dev").unwrap().id;
    let taken = vec![("x".to_string(), dev_id)];
    assert_eq!(ensure_default_environments_with_ids(&mut db, &taken), Err(DbError::ConstraintViolation));
    // Too few ids where one is needed also stops it.
    assert_eq!(ensure_default_environments_with_ids(&mut db, &vec![]), Err(DbError::ConstraintViolation));
    assert_eq!(ensure_default_environments(&mut db), Ok(()));
    assert!(db.get_environment(&p.id, "prod").is_ok());
}

#[test]
fn a_migration_run_records_every_file() {
    let files = vec![
        ("0001.sql".to_string(), "aa".to_string()),
        ("0002.sql".to_string(), "bb".to_string()),
        ("0003.sql".to_string(), "cc".to_string()),
    ];
    let applied = vec![("0002.sql".to_string(), "bb".to_string())];
    let pending = match migration_action(&applied, &files, false) {
        Ok(MigrationAction::Apply(p)) => p,
        _ => panic!("expected pending migrations"),
    };
    let mut recorded = applied.clone();
    recorded.extend(pending);
    recorded.sort();
    assert_eq!(recorded, files);
}
