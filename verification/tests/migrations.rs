use shortener::migrate::{
    current_catalog, pending_steps, MigrationCatalog, MigrationRunner, MigrationStep, SchemaStore,
};

const CREATE_REDIRECTS: &str =
    "CREATE TABLE IF NOT EXISTS redirects (token TEXT NOT NULL PRIMARY KEY, url TEXT NOT NULL)";

fn catalog_with_tags(tags: &[u64]) -> MigrationCatalog {
    MigrationCatalog {
        steps: tags
            .iter()
            .map(|&tag| MigrationStep {
                tag,
                statements: vec![format!("-- step {}", tag)],
            })
            .collect(),
    }
}

#[test]
fn fresh_store_migrates_to_current_version() {
    let mut store = SchemaStore::new();
    assert_eq!(store.version_row, None);
    let runner = MigrationRunner::new(current_catalog());
    runner.run(&mut store);
    assert_eq!(store.version_row, Some(1));
    assert_eq!(store.executed, vec![CREATE_REDIRECTS.to_string()]);
}

#[test]
fn migrations_twice_equal_once() {
    let mut store = SchemaStore::new();
    let runner = MigrationRunner::new(current_catalog());
    runner.run(&mut store);
    let version_after_one = store.version_row;
    let log_after_one = store.executed.clone();
    runner.run(&mut store);
    assert_eq!(store.version_row, version_after_one);
    assert_eq!(store.executed, log_after_one);
}

#[test]
fn covered_steps_never_rerun() {
    let mut store = SchemaStore {
        version_row: Some(5),
        executed: Vec::new(),
    };
    let runner = MigrationRunner::new(current_catalog());
    runner.run(&mut store);
    assert_eq!(store.version_row, Some(5));
    assert!(store.executed.is_empty());
}

#[test]
fn partial_catalog_resumes_in_order() {
    let mut store = SchemaStore {
        version_row: Some(1),
        executed: Vec::new(),
    };
    let runner = MigrationRunner::new(catalog_with_tags(&[1, 2, 3]));
    runner.run(&mut store);
    assert_eq!(store.version_row, Some(3));
    assert_eq!(
        store.executed,
        vec!["-- step 2".to_string(), "-- step 3".to_string()]
    );
}

#[test]
fn pending_steps_filters_by_version() {
    let catalog = catalog_with_tags(&[1, 2, 3]);
    let pending: Vec<u64> = pending_steps(&catalog, 1).iter().map(|s| s.tag).collect();
    assert_eq!(pending, vec![2, 3]);
    assert!(pending_steps(&catalog, 3).is_empty());
    let all: Vec<u64> = pending_steps(&catalog, 0).iter().map(|s| s.tag).collect();
    assert_eq!(all, vec![1, 2, 3]);
}

#[test]
fn current_catalog_shape() {
    let catalog = current_catalog();
    assert_eq!(catalog.steps.len(), 1);
    assert_eq!(catalog.steps[0].tag, 1);
    assert_eq!(catalog.steps[0].statements, vec![CREATE_REDIRECTS.to_string()]);
}
