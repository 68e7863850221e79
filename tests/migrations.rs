use desktop_migrations::apply::{Action, Applier};
use desktop_migrations::migration::{
    load_migrations, Migration, MigrationKind, CREATE_TABLE_STRUCTURE, CREATE_TABLE_TERRITORY,
    DATABASE_URL,
};
use desktop_migrations::startup::startup_config;

fn run(ms: &Vec<Migration>, recorded: i64, outcomes: &[bool]) -> (Applier, Vec<usize>, Action) {
    let mut applier = Applier::begin(ms, recorded);
    let mut executed = Vec::new();
    let mut next = 0;
    loop {
        match applier.next_action(ms) {
            Action::Execute(i) => {
                executed.push(i);
                let ok = outcomes[next];
                next += 1;
                applier.report(ms, ok);
            }
            other => return (applier, executed, other),
        }
    }
}

#[test]
fn registry_holds_both_migrations_in_order() {
    let ms = load_migrations();
    assert_eq!(ms.len(), 2);
    assert_eq!(ms[0].version, 1);
    assert_eq!(ms[0].description, "create_table_structure");
    assert_eq!(ms[0].sql, CREATE_TABLE_STRUCTURE);
    assert_eq!(ms[0].kind, MigrationKind::Up);
    assert_eq!(ms[1].version, 2);
    assert_eq!(ms[1].description, "create_table_territory");
    assert_eq!(ms[1].sql, CREATE_TABLE_TERRITORY);
    assert_eq!(ms[1].kind, MigrationKind::Up);
}

#[test]
fn registry_is_the_same_on_every_call() {
    let a = load_migrations();
    let b = load_migrations();
    assert_eq!(a.len(), b.len());
    for (x, y) in a.iter().zip(b.iter()) {
        assert_eq!(x.version, y.version);
        assert_eq!(x.description, y.description);
        assert_eq!(x.sql, y.sql);
        assert_eq!(x.kind, y.kind);
    }
}

#[test]
fn statements_create_the_two_tables() {
    let ms = load_migrations();
    assert!(ms[0].sql.starts_with("CREATE TABLE"));
    assert!(ms[0].sql.contains(" structure "));
    assert!(ms[1].sql.starts_with("CREATE TABLE"));
    assert!(ms[1].sql.contains(" territory "));
}

#[test]
fn fresh_store_applies_one_then_two() {
    let ms = load_migrations();
    let (applier, executed, last) = run(&ms, 0, &[true, true]);
    assert_eq!(executed, vec![0, 1]);
    assert_eq!(applier.applied_versions(), vec![1, 2]);
    assert_eq!(applier.recorded_version(), 2);
    assert_eq!(applier.failed_version(), None);
    assert_eq!(last, Action::Finish);
}

#[test]
fn fresh_store_ends_at_version_two() {
    let ms = load_migrations();
    let (applier, _, last) = run(&ms, 0, &[true, true]);
    assert_eq!(applier.start_version(), 0);
    assert_eq!(applier.recorded_version(), 2);
    assert_eq!(last, Action::Finish);
}

#[test]
fn store_at_version_two_is_left_alone() {
    let ms = load_migrations();
    let (applier, executed, last) = run(&ms, 2, &[]);
    assert!(executed.is_empty());
    assert!(applier.applied_versions().is_empty());
    assert_eq!(applier.recorded_version(), 2);
    assert_eq!(last, Action::Finish);
}

#[test]
fn rerun_after_success_applies_nothing() {
    let ms = load_migrations();
    let (first, _, _) = run(&ms, 0, &[true, true]);
    let (second, executed, last) = run(&ms, first.recorded_version(), &[]);
    assert!(executed.is_empty());
    assert_eq!(second.recorded_version(), 2);
    assert_eq!(last, Action::Finish);
}

#[test]
fn store_at_version_one_applies_only_two() {
    let ms = load_migrations();
    let applier = Applier::begin(&ms, 1);
    assert_eq!(applier.next_action(&ms), Action::Execute(1));
    let (applier, executed, last) = run(&ms, 1, &[true]);
    assert_eq!(executed, vec![1]);
    assert_eq!(applier.applied_versions(), vec![2]);
    assert_eq!(applier.recorded_version(), 2);
    assert_eq!(last, Action::Finish);
}

#[test]
fn store_at_future_version_is_left_alone() {
    let ms = load_migrations();
    let (applier, executed, last) = run(&ms, 5, &[]);
    assert!(executed.is_empty());
    assert!(applier.applied_versions().is_empty());
    assert_eq!(applier.recorded_version(), 5);
    assert_eq!(applier.failed_version(), None);
    assert_eq!(last, Action::Finish);
}

#[test]
fn failing_first_statement_aborts_with_nothing_recorded() {
    let ms = load_migrations();
    let (applier, executed, last) = run(&ms, 0, &[false, true]);
    assert_eq!(executed, vec![0]);
    assert!(applier.applied_versions().is_empty());
    assert_eq!(applier.recorded_version(), 0);
    assert_eq!(applier.failed_version(), Some(1));
    assert_eq!(last, Action::Abort(1));
}

#[test]
fn failing_second_statement_keeps_the_first() {
    let ms = load_migrations();
    let (applier, executed, last) = run(&ms, 0, &[true, false]);
    assert_eq!(executed, vec![0, 1]);
    assert_eq!(applier.applied_versions(), vec![1]);
    assert_eq!(applier.recorded_version(), 1);
    assert_eq!(applier.failed_version(), Some(2));
    assert_eq!(last, Action::Abort(2));
}

#[test]
fn aborted_run_stays_aborted() {
    let ms = load_migrations();
    let mut applier = Applier::begin(&ms, 0);
    applier.report(&ms, false);
    assert_eq!(applier.next_action(&ms), Action::Abort(1));
    assert_eq!(applier.next_action(&ms), Action::Abort(1));
}

fn sparse_registry() -> Vec<Migration> {
    [3, 7, 10]
        .iter()
        .map(|&v| Migration {
            version: v,
            description: format!("step_{}", v),
            sql: format!("CREATE TABLE t{} (id INTEGER);", v),
            kind: MigrationKind::Up,
        })
        .collect()
}

#[test]
fn sparse_versions_resume_above_recorded() {
    let ms = sparse_registry();
    let applier = Applier::begin(&ms, 5);
    assert_eq!(applier.next_action(&ms), Action::Execute(1));
    let (applier, executed, last) = run(&ms, 5, &[true, true]);
    assert_eq!(executed, vec![1, 2]);
    assert_eq!(applier.applied_versions(), vec![7, 10]);
    assert_eq!(applier.recorded_version(), 10);
    assert_eq!(last, Action::Finish);
}

#[test]
fn empty_registry_finishes_at_once() {
    let ms: Vec<Migration> = Vec::new();
    let (applier, executed, last) = run(&ms, 0, &[]);
    assert!(executed.is_empty());
    assert_eq!(applier.recorded_version(), 0);
    assert_eq!(last, Action::Finish);
}

#[test]
fn startup_config_grants_all_capabilities() {
    let config = startup_config();
    assert_eq!(config.database_url, DATABASE_URL);
    assert_eq!(config.database_url, "sqlite:mydatabase.db");
    assert_eq!(config.migrations.len(), 2);
    assert_eq!(config.migrations[0].version, 1);
    assert_eq!(config.migrations[1].version, 2);
    assert!(config.network);
    assert!(config.shell);
}
