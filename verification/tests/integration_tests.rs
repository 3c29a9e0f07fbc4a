use dopper::db::{DbError, DbManager};
use dopper::env_vars::get_effective_env;
use dopper::integrity::{
    ensure_default_environments, migration_action, migration_entry, plan_migrations, verify_integrity,
    MigrationAction,
    IntegrityError, MigrationError,
};

fn setup() -> DbManager {
    DbManager::new("/tmp/dopper-test")
}

#[test]
fn test_project_creation_and_listing() {
    let mut manager = setup();

    // List empty
    let projects = manager.list_projects();
    assert!(projects.is_empty());

    // Create
    let project = manager.create_project("p1").expect("failed to create");
    assert_eq!(project.name, "p1");

    // List one
    let projects = manager.list_projects();
    assert_eq!(projects.len(), 1);
    assert_eq!(projects[0].name, "p1");

    // Get by ID
    let fetched = manager
        .get_project_by_id(&project.id)
        .expect("failed to get by id");
    assert_eq!(fetched.name, "p1");

    // Get by Name
    let fetched_name = manager
        .get_project_by_name("p1")
        .expect("failed to get by name");
    assert_eq!(fetched_name.id, project.id);
}

#[test]
fn test_secrets_management() {
    let mut manager = setup();
    let project = manager.create_project("p1").expect("failed to create");

    // Environment auto-creation
    let env = manager
        .get_or_create_environment(&project.id, "prod")
        .expect("failed to get env");
    assert_eq!(env.slug, "prod");

    // Set Secret
    manager
        .set_secret(&env.id, "DB_HOST", "localhost")
        .expect("failed to set");

    // Get Secrets
    let secrets = manager.get_secrets(&env.id);
    assert_eq!(secrets.len(), 1);
    assert_eq!(secrets[0].key, "DB_HOST");
    assert_eq!(secrets[0].value, "localhost");

    // Update Secret
    manager
        .set_secret(&env.id, "DB_HOST", "127.0.0.1")
        .expect("failed to update");
    let secrets = manager.get_secrets(&env.id);
    assert_eq!(secrets[0].value, "127.0.0.1");

    // Unset Secret
    manager.unset_secret(&env.id, "DB_HOST");
    let secrets = manager.get_secrets(&env.id);
    assert!(secrets.is_empty());
}

#[test]
fn test_directory_linking() {
    let mut manager = setup();
    let project = manager.create_project("p1").expect("failed to create");

    let app_dir = "/tmp/dopper-link-test/app";

    // Link
    manager
        .link_directory(&project.id, app_dir)
        .expect("failed to link");

    // Resolve from exact path
    let resolved = manager
        .get_project_from_path(app_dir)
        .expect("should find project");
    assert_eq!(resolved.id, project.id);

    // Resolve from subdir
    let sub_dir = "/tmp/dopper-link-test/app/src/utils";
    let resolved_sub = manager
        .get_project_from_path(sub_dir)
        .expect("should find project from sub");
    assert_eq!(resolved_sub.id, project.id);

    // Resolve from non-linked path
    let other_dir = "/tmp/dopper-link-test/other";
    let resolved_none = manager.get_project_from_path(other_dir);
    assert!(resolved_none.is_none());
}

#[test]
fn test_migration_corruption_recovery() {
    let mut manager = setup();
    manager.create_project("before_corruption").expect("failed to create project");
    assert_eq!(manager.list_projects().len(), 1);

    let name = "0001_initial_schema.sql".to_string();
    let schema = "CREATE TABLE projects (project_id TEXT PRIMARY KEY, name TEXT NOT NULL UNIQUE);";
    let file = migration_entry(&name, schema).expect("a .sql file is a migration");
    let files = vec![file.clone()];

    // The database records the migration as applied, with its correct digest.
    let applied = vec![file.clone()];
    assert!(verify_integrity(&applied, &files).is_ok());

    // Corrupt the recorded digest.
    let corrupted = vec![(name.clone(), "BAD_MD5_HASH".to_string())];
    assert_eq!(
        verify_integrity(&corrupted, &files),
        Err(IntegrityError::Corruption(name.clone()))
    );
    assert_eq!(
        plan_migrations(&corrupted, &files),
        Err(MigrationError::Corruption(name.clone()))
    );

    // A corrupted database is deleted and started over: the store read back
    // from the new file is empty, so the project created before is gone.
    match migration_action(&corrupted, &files, false) {
        Ok(MigrationAction::ResetDatabase(reason)) => {
            assert_eq!(reason, MigrationError::Corruption(name.clone()));
            manager = DbManager::new(manager.db_path());
        }
        _ => panic!("a corrupted database must be reset"),
    }
    let projects = manager.list_projects();
    assert!(projects.is_empty(), "Database should have been wiped");

    // After the database is wiped, every migration is applied again, and the
    // digest recorded for it is the file's.
    let wiped: Vec<(String, String)> = Vec::new();
    let pending = plan_migrations(&wiped, &files).expect("a wiped database has no corruption");
    assert_eq!(pending.len(), 1);
    assert_eq!(pending[0].0, name);
    assert_ne!(pending[0].1, "BAD_MD5_HASH", "MD5 should have been corrected (reset) by recovery");
}

#[test]
fn test_default_environments() {
    let mut manager = setup();
    let project = manager
        .create_project("defaults_test")
        .expect("failed to create");

    // Check that dev and prod exist
    let envs = manager.list_environments(&project.id);
    let slugs: Vec<String> = envs.into_iter().map(|e| e.slug).collect();
    assert!(slugs.contains(&"dev".to_string()), "Should contain dev");
    assert!(slugs.contains(&"prod".to_string()), "Should contain prod");

    // Check that default active env is 'dev'
    let active = manager
        .get_active_environment(&project.id)
        .expect("failed to get active");
    assert_eq!(active, "dev");
}

#[test]
fn test_env_lifecycle() {
    let mut manager = setup();
    let project = manager
        .create_project("env_lifecycle")
        .expect("failed to create");

    // Create new env
    let yolo = manager
        .create_environment(&project.id, "yolo")
        .expect("failed to create yolo");
    assert_eq!(yolo.slug, "yolo");

    // Verify it exists
    let envs = manager.list_environments(&project.id);
    assert!(envs.iter().any(|e| e.slug == "yolo"));

    // Verify uniqueness error
    manager
        .create_environment(&project.id, "yolo")
        .expect_err("should fail to create duplicate");

    // Delete env
    manager
        .delete_environment(&project.id, "yolo")
        .expect("failed to delete yolo");

    // Verify it's gone
    let envs_after = manager.list_environments(&project.id);
    assert!(!envs_after.iter().any(|e| e.slug == "yolo"));
}

#[test]
fn test_dump_restore() {
    let mut manager = setup();
    let project = manager
        .create_project("dump_test")
        .expect("failed to create");
    let env = manager
        .get_or_create_environment(&project.id, "dev")
        .unwrap();
    manager
        .set_secret(&env.id, "SECRET_KEY", "ABC")
        .expect("failed to set secret");

    // Dump
    let dump = manager.dump();
    assert_eq!(dump.projects.len(), 1);
    assert_eq!(dump.secrets.len(), 1);

    // Restore into a new, empty store
    let mut manager2 = DbManager::new("/tmp/dopper-restore-test");
    manager2.restore(dump).expect("failed to restore");

    // Verify
    let projects = manager2.list_projects();
    assert_eq!(projects.len(), 1);
    assert_eq!(projects[0].name, "dump_test");
    assert_eq!(projects[0].id, project.id); // ID should be preserved

    let envs = manager2.list_environments(&projects[0].id);
    let dev_env = envs
        .iter()
        .find(|e| e.slug == "dev")
        .expect("dev env missing");

    let secrets = manager2.get_secrets(&dev_env.id);
    assert_eq!(secrets.len(), 1);
    assert_eq!(secrets[0].key, "SECRET_KEY");
    assert_eq!(secrets[0].value, "ABC");
}

#[test]
fn test_project_deletion() {
    let mut manager = setup();
    let project = manager
        .create_project("to_delete")
        .expect("failed to create");

    // Create some state to verify cascade
    let env = manager
        .get_or_create_environment(&project.id, "dev")
        .unwrap();
    manager.set_secret(&env.id, "K", "V").unwrap();
    manager
        .set_active_environment(&project.id, "prod")
        .unwrap();

    // Delete
    manager
        .delete_project("to_delete")
        .expect("failed to delete");

    // Verify
    let projects = manager.list_projects();
    assert!(!projects.iter().any(|p| p.name == "to_delete"));

    let secrets = manager.get_secrets(&env.id);
    assert!(secrets.is_empty(), "Secrets should be cascaded delete");

    // Verify env is gone
    let env_check = manager.get_environment(&project.id, "dev");
    assert!(env_check.is_err(), "Environment should be gone");
}

#[test]
fn test_secret_isolation() {
    let mut manager = setup();
    let project = manager
        .create_project("iso_test")
        .expect("failed to create");

    let dev = manager
        .get_or_create_environment(&project.id, "dev")
        .unwrap();
    let prod = manager
        .get_or_create_environment(&project.id, "prod")
        .unwrap();

    manager.set_secret(&dev.id, "API_KEY", "DEV_KEY").unwrap();
    manager.set_secret(&prod.id, "API_KEY", "PROD_KEY").unwrap();

    let dev_secrets = manager.get_secrets(&dev.id);
    let prod_secrets = manager.get_secrets(&prod.id);

    assert_eq!(dev_secrets.len(), 1);
    assert_eq!(dev_secrets[0].value, "DEV_KEY");

    assert_eq!(prod_secrets.len(), 1);
    assert_eq!(prod_secrets[0].value, "PROD_KEY");
}

#[test]
fn test_active_env_switching() {
    let mut manager = setup();
    let project = manager
        .create_project("switch_test")
        .expect("failed to create");

    // Default is dev
    assert_eq!(manager.get_active_environment(&project.id).unwrap(), "dev");

    // Switch to prod
    manager
        .set_active_environment(&project.id, "prod")
        .expect("failed to switch");
    assert_eq!(manager.get_active_environment(&project.id).unwrap(), "prod");

    // Switch to custom
    manager.create_environment(&project.id, "staging").unwrap();
    manager
        .set_active_environment(&project.id, "staging")
        .unwrap();
    assert_eq!(
        manager.get_active_environment(&project.id).unwrap(),
        "staging"
    );
}

#[test]
fn test_integrity_restores_default_envs() {
    let mut manager = setup();
    let project = manager
        .create_project("integrity_test")
        .expect("failed to create");

    // Delete 'prod' (simulating corruption/tampering)
    manager
        .delete_environment(&project.id, "prod")
        .expect("failed to delete prod");

    // Verify it's gone
    let envs = manager.list_environments(&project.id);
    assert!(!envs.iter().any(|e| e.slug == "prod"));

    // Trigger the integrity step of initialization
    ensure_default_environments(&mut manager).expect("failed to init db");

    // Verify 'prod' is back
    let envs_after = manager.list_environments(&project.id);
    assert!(
        envs_after.iter().any(|e| e.slug == "prod"),
        "Prod should have been restored"
    );
}

#[test]
fn test_print_retrieval() {
    let mut manager = setup();
    let project = manager
        .create_project("print_test")
        .expect("failed to create");

    let env = manager
        .get_or_create_environment(&project.id, "dev")
        .unwrap();

    manager
        .set_secret(&env.id, "TEST_KEY", "TEST_VALUE")
        .expect("failed to set");
    manager
        .set_secret(&env.id, "ANOTHER_KEY", "12345")
        .expect("failed to set");

    let secrets = manager.get_secrets(&env.id);

    assert!(secrets
        .iter()
        .any(|s| s.key == "TEST_KEY" && s.value == "TEST_VALUE"));
    assert!(secrets
        .iter()
        .any(|s| s.key == "ANOTHER_KEY" && s.value == "12345"));
    assert_eq!(secrets.len(), 2);
}

#[test]
fn test_get_effective_env_injection() {
    let mut manager = setup();
    let project = manager
        .create_project("effective_env_test")
        .expect("failed to create");
    let env_slug = "dev";

    // We don't set any secrets, just check for system ones
    manager
        .get_or_create_environment(&project.id, env_slug)
        .unwrap();

    let env_vars =
        get_effective_env(&manager, &project, env_slug).expect("failed to get effective env");

    assert!(env_vars
        .iter()
        .any(|(k, v)| k == "DOPPER_PROJECT_ID" && v == &project.id));
    assert!(env_vars.iter().any(|(k, v)| k == "DOPPER_ENV" && v == env_slug));
}

#[test]
fn create_project_refuses_a_taken_name() {
    let mut manager = setup();
    manager.create_project("dup").expect("first create");
    assert_eq!(
        manager.create_project("dup").err(),
        Some(DbError::ConstraintViolation)
    );
    assert_eq!(manager.list_projects().len(), 1);
}
