use momoka_core::database::error::DatabaseError;
use momoka_core::database::memory::{MemoryBackend, MemoryContext};
use momoka_core::database::sync::{execute, SyncFn, Synchronizer};

fn simple(statements: &[&str]) -> Synchronizer {
    Synchronizer::Simple(statements.iter().map(|s| s.to_string()).collect())
}

/// Scenario: a two-entry catalog and a fresh backend. The version starts
/// absent, the master step alone is applied, and the version becomes 1.
#[test]
fn fresh_backend_applies_master_and_jumps_to_latest() {
    let catalog = vec![
        simple(&["CREATE TABLE sync_data (field TEXT PRIMARY KEY, value TEXT);"]),
        simple(&["CREATE TABLE sync_data (field TEXT PRIMARY KEY, value TEXT);"]),
    ];
    let mut backend = MemoryBackend::new("wide-column".to_string());
    let mut context = MemoryContext::new();
    assert_eq!(backend.current_version(), None);
    let r = execute(&catalog, &mut context, &mut backend);
    assert!(r.is_ok());
    assert_eq!(backend.current_version(), Some(1));
    assert_eq!(
        backend.executed_statements().as_slice(),
        &["CREATE TABLE sync_data (field TEXT PRIMARY KEY, value TEXT);".to_string()]
    );
    assert_eq!(backend.versions_written().as_slice(), &[1]);
}

/// For a catalog of length N and an uninitialized backend, one successful
/// run leaves the version at N - 1 and has executed every statement of the
/// master step exactly once.
#[test]
fn fresh_backend_executes_every_master_statement_once() {
    let catalog = vec![
        simple(&["m1", "m2", "m3", "m1"]),
        simple(&["v1"]),
        simple(&["v2"]),
        simple(&["v3"]),
    ];
    let mut backend = MemoryBackend::new("wide-column".to_string());
    let mut context = MemoryContext::new();
    let r = execute(&catalog, &mut context, &mut backend);
    assert!(r.is_ok());
    assert_eq!(backend.current_version(), Some(3));
    assert_eq!(
        backend.executed_statements().as_slice(),
        &[
            "m1".to_string(),
            "m2".to_string(),
            "m3".to_string(),
            "m1".to_string()
        ]
    );
    assert_eq!(backend.versions_written().as_slice(), &[3]);
}

/// Scenario: catalog of length 3, backend already at version 0. The run
/// applies the steps at indices 0 and 1 in ascending order, persists the
/// version after each one, and never reaches the final index: the step at
/// index 2 is left behind by the loop bound. This asserts the observed
/// behavior of the bound, defect or not.
#[test]
fn initialized_backend_never_reaches_the_last_index() {
    let catalog = vec![simple(&["m"]), simple(&["a"]), simple(&["b"])];
    let mut backend = MemoryBackend::at_version("wide-column".to_string(), 0);
    let mut context = MemoryContext::new();
    let r = execute(&catalog, &mut context, &mut backend);
    assert!(r.is_ok());
    assert_eq!(
        backend.executed_statements().as_slice(),
        &["m".to_string(), "a".to_string()]
    );
    assert!(!backend
        .executed_statements()
        .contains(&"b".to_string()));
    assert_eq!(backend.versions_written().as_slice(), &[0, 1]);
    assert_eq!(backend.current_version(), Some(1));
}

/// A backend at version v with catalog length N (v < N - 1) receives
/// exactly the steps v, v + 1, ..., N - 2, each version persisted in
/// ascending order, none skipped, none decremented.
#[test]
fn upgrade_applies_the_half_open_range_in_order() {
    let catalog = vec![
        simple(&["m"]),
        simple(&["one"]),
        simple(&["two"]),
        simple(&["three"]),
    ];
    let mut backend = MemoryBackend::at_version("wide-column".to_string(), 1);
    let mut context = MemoryContext::new();
    let r = execute(&catalog, &mut context, &mut backend);
    assert!(r.is_ok());
    assert_eq!(
        backend.executed_statements().as_slice(),
        &["one".to_string(), "two".to_string()]
    );
    assert_eq!(backend.versions_written().as_slice(), &[1, 2]);
    assert_eq!(backend.current_version(), Some(2));
}

/// A second consecutive run on a caught-up backend executes zero
/// additional statements and performs no additional version writes.
#[test]
fn second_run_on_a_caught_up_backend_is_a_no_op() {
    let catalog = vec![simple(&["m1", "m2"]), simple(&["v1"]), simple(&["v2"])];
    let mut backend = MemoryBackend::new("wide-column".to_string());
    let mut context = MemoryContext::new();
    execute(&catalog, &mut context, &mut backend).unwrap();
    let statements_after_first = backend.executed_statements().len();
    let writes_after_first = backend.versions_written().len();
    let r = execute(&catalog, &mut context, &mut backend);
    assert!(r.is_ok());
    assert_eq!(backend.executed_statements().len(), statements_after_first);
    assert_eq!(backend.versions_written().len(), writes_after_first);
    assert_eq!(backend.current_version(), Some(2));
}

/// An empty catalog is a successful no-op.
#[test]
fn empty_catalog_changes_nothing() {
    let catalog: Vec<Synchronizer> = vec![];
    let mut backend = MemoryBackend::new("wide-column".to_string());
    let mut context = MemoryContext::new();
    let r = execute(&catalog, &mut context, &mut backend);
    assert!(r.is_ok());
    assert_eq!(backend.current_version(), None);
    assert!(backend.executed_statements().is_empty());
    assert!(backend.versions_written().is_empty());
}

/// In a composite step whose middle sub-step fails, the first sub-step is
/// fully applied, the third is never invoked, and the error of the failing
/// sub-step is propagated unchanged.
#[test]
fn mixed_failure_isolates_later_sub_steps() {
    let s1 = simple(&["a1", "a2"]);
    let s2 = simple(&["b1", "b2", "b3"]);
    let s3 = simple(&["c1"]);
    let step = Synchronizer::Mixed(vec![s1, s2, s3]);
    let catalog = vec![step];
    let mut backend = MemoryBackend::new("composite".to_string());
    backend.reject("b2".to_string());
    let mut context = MemoryContext::new();
    let r = execute(&catalog, &mut context, &mut backend);
    assert_eq!(
        r.unwrap_err(),
        DatabaseError::Protocol("statement rejected: b2".to_string())
    );
    assert_eq!(
        backend.executed_statements().as_slice(),
        &["a1".to_string(), "a2".to_string(), "b1".to_string()]
    );
    assert!(!backend.executed_statements().contains(&"c1".to_string()));
    assert_eq!(backend.current_version(), None);
    assert!(backend.versions_written().is_empty());
}

/// No version is persisted for a step that failed, and the steps before it
/// keep their persisted versions.
#[test]
fn failed_step_gets_no_version_write() {
    let catalog = vec![
        simple(&["m"]),
        simple(&["one"]),
        simple(&["two-a", "two-b"]),
        simple(&["three"]),
    ];
    let mut backend = MemoryBackend::at_version("wide-column".to_string(), 1);
    backend.reject("two-b".to_string());
    let mut context = MemoryContext::new();
    let r = execute(&catalog, &mut context, &mut backend);
    assert!(r.is_err());
    assert_eq!(
        backend.executed_statements().as_slice(),
        &["one".to_string(), "two-a".to_string()]
    );
    assert_eq!(backend.versions_written().as_slice(), &[1]);
    assert_eq!(backend.current_version(), Some(1));
}

/// Statements of one flat step run in their given order, whatever the
/// grouping into batches of ten: across a group boundary the order is kept
/// and nothing is dropped or duplicated.
#[test]
fn simple_step_keeps_statement_order_across_batches() {
    let names: Vec<String> = (0..25).map(|i| format!("stmt-{}", i)).collect();
    let refs: Vec<&str> = names.iter().map(|s| s.as_str()).collect();
    let catalog = vec![simple(&refs)];
    let mut backend = MemoryBackend::new("bulk".to_string());
    let mut context = MemoryContext::new();
    let r = execute(&catalog, &mut context, &mut backend);
    assert!(r.is_ok());
    assert_eq!(backend.executed_statements().as_slice(), names.as_slice());
    assert_eq!(backend.versions_written().as_slice(), &[0]);
}

/// Custom steps are invoked through the shared context, in catalog order,
/// and a failing custom routine aborts the run with its own error.
#[test]
fn custom_steps_run_against_the_shared_context() {
    let step = Synchronizer::Mixed(vec![
        Synchronizer::Custom(SyncFn::new(7)),
        simple(&["x"]),
        Synchronizer::Custom(SyncFn::new(9)),
    ]);
    let catalog = vec![step];
    let mut backend = MemoryBackend::new("composite".to_string());
    let mut context = MemoryContext::new();
    let r = execute(&catalog, &mut context, &mut backend);
    assert!(r.is_ok());
    assert_eq!(context.invoked_routines().as_slice(), &[7, 9]);
    assert_eq!(backend.executed_statements().as_slice(), &["x".to_string()]);

    let catalog2 = vec![Synchronizer::Mixed(vec![
        Synchronizer::Custom(SyncFn::new(1)),
        Synchronizer::Custom(SyncFn::new(2)),
        Synchronizer::Custom(SyncFn::new(3)),
    ])];
    let mut backend2 = MemoryBackend::new("composite".to_string());
    let mut context2 = MemoryContext::new();
    context2.reject(2);
    let r2 = execute(&catalog2, &mut context2, &mut backend2);
    assert_eq!(
        r2.unwrap_err(),
        DatabaseError::Protocol("custom routine failed".to_string())
    );
    assert_eq!(context2.invoked_routines().as_slice(), &[1, 2]);
}

/// A backend whose version is already at or past the last catalog index is
/// left untouched.
#[test]
fn backend_past_the_catalog_is_untouched() {
    let catalog = vec![simple(&["m"]), simple(&["one"])];
    let mut backend = MemoryBackend::at_version("wide-column".to_string(), 9);
    let mut context = MemoryContext::new();
    let r = execute(&catalog, &mut context, &mut backend);
    assert!(r.is_ok());
    assert!(backend.executed_statements().is_empty());
    assert!(backend.versions_written().is_empty());
    assert_eq!(backend.current_version(), Some(9));
}
