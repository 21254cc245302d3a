use branch_cleaner::loading_records;
use branch_cleaner::BCBranch;
use branch_cleaner::BranchStore;
use branch_cleaner::InMemoryBranchStore;
use branch_cleaner::PrStatus;

#[test]
fn can_use_in_memory_store() {
    let store = InMemoryBranchStore::default();
    let branches = store.list_branches();
    assert!(!branches.is_empty());
}

#[test]
fn in_memory_store_can_delete_branches() {
    let mut store = InMemoryBranchStore::default();
    let initial_count = store.list_branches().len();

    store.delete_branches(&["main".to_string()]);

    let remaining = store.list_branches();
    assert_eq!(remaining.len(), initial_count - 1);
    assert!(!remaining.iter().any(|b| b.name == "main"));
}

// Deleting from memory cannot fail part-way: no name is ever reported back.
#[test]
fn in_memory_delete_reports_no_failures() {
    let mut store = InMemoryBranchStore::default();

    let failed = store.delete_branches(&["main".to_string(), "not-there".to_string()]);

    assert!(failed.is_empty());
    assert_eq!(store.list_branches().len(), 6);
}

#[test]
fn deleting_unknown_names_is_a_no_op() {
    let mut store = InMemoryBranchStore::new(vec![
        BCBranch::new("a", PrStatus::NONE),
        BCBranch::new("b", PrStatus::NONE),
    ]);

    store.delete_branches(&["not-there".to_string()]);

    assert_eq!(store.list_branches().len(), 2);
}

// Immediately after load, the store exposes one record per listed name, in
// order, all in LOADING status.
#[test]
fn loading_records_cover_every_name_once() {
    let names = vec!["main".to_owned(), "feature-1".to_owned(), "feature-2".to_owned()];

    let records = loading_records(&names);
    let store = InMemoryBranchStore::new(records);
    let listed = store.list_branches();

    assert_eq!(listed.len(), 3);
    for (i, rec) in listed.iter().enumerate() {
        assert_eq!(rec.name, names[i]);
        assert_eq!(rec.pr_status, PrStatus::LOADING);
        assert_eq!(rec.pr_number, None);
        assert_eq!(rec.pr_title, None);
    }
}

#[test]
fn default_store_holds_the_demo_branches() {
    let store = InMemoryBranchStore::default();
    let branches = store.list_branches();

    assert_eq!(branches.len(), 7);
    assert_eq!(branches[0].name, "main");
    assert_eq!(branches[0].pr_status, PrStatus::NONE);
    assert_eq!(branches[2].name, "old-feature-branch");
    assert_eq!(branches[2].pr_status, PrStatus::MERGED);
    assert_eq!(branches[2].pr_number, Some(23));
    assert_eq!(
        branches[2].pr_title.as_deref(),
        Some("Old feature implementation")
    );
}
