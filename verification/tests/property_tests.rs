use branch_cleaner::merged_branch_names;
use branch_cleaner::BCBranch;
use branch_cleaner::BranchViewModel;
use branch_cleaner::InMemoryBranchStore;
use branch_cleaner::PrStatus;
use branch_cleaner::ViewState;

fn create_test_branches() -> Vec<BCBranch> {
    vec![
        BCBranch::new("main", PrStatus::NONE),
        BCBranch::with_pr("feature-1", PrStatus::OPEN, 1, "Feature 1"),
        BCBranch::with_pr("feature-2", PrStatus::MERGED, 2, "Feature 2"),
    ]
}

// Toggling the mark twice at the same cursor position restores the prior
// marked set, for a branch that starts unmarked.
#[test]
fn toggle_twice_restores_unmarked_branch() {
    let branches = create_test_branches();
    let mut state = ViewState::new(branches.clone());
    let view_model = BranchViewModel::new(InMemoryBranchStore::new(branches));
    let before = state.selected_branches.clone();

    view_model.toggle_selection(&mut state);
    view_model.toggle_selection(&mut state);

    assert_eq!(state.selected_branches, before);
}

// ... and for a branch that starts marked (the marked set is restored as a
// set; here it is a single name, so the vector matches exactly).
#[test]
fn toggle_twice_restores_marked_branch() {
    let branches = create_test_branches();
    let mut state = ViewState::new(branches.clone());
    let view_model = BranchViewModel::new(InMemoryBranchStore::new(branches));
    view_model.move_down(&mut state);
    view_model.move_down(&mut state); // cursor on feature-2, already marked
    let before = state.selected_branches.clone();

    view_model.toggle_selection(&mut state);
    view_model.toggle_selection(&mut state);

    assert_eq!(state.selected_branches, before);
}

// Deleting the marked branches twice in a row: the second run finds nothing
// marked and changes nothing.
#[test]
fn delete_marked_twice_is_a_no_op_on_the_second_call() {
    let branches = create_test_branches();
    let mut state = ViewState::new(branches.clone());
    let mut view_model = BranchViewModel::new(InMemoryBranchStore::new(branches));

    let failed_first = view_model.delete_selected_branches(&mut state);
    let after_first = state.clone();

    let failed_second = view_model.delete_selected_branches(&mut state);

    assert_eq!(state, after_first);
    assert!(failed_first.is_empty());
    assert!(failed_second.is_empty());
}

// Recomputing the default selection from the same list twice yields the
// same set.
#[test]
fn default_selection_rule_is_idempotent() {
    let branches = create_test_branches();

    let once = merged_branch_names(&branches);
    let twice = merged_branch_names(&branches);

    assert_eq!(once, twice);
    assert_eq!(once, vec!["feature-2".to_owned()]);
}

// Scenario: from the freshly constructed state, moveDown(); moveDown();
// deleteMarked() deletes feature-2, leaves [main, feature-1], clears the
// marks and resets the cursor.
#[test]
fn move_twice_then_delete_marked_scenario() {
    let branches = create_test_branches();
    let mut state = ViewState::new(branches.clone());
    let mut view_model = BranchViewModel::new(InMemoryBranchStore::new(branches));
    assert_eq!(state.selected_branches, vec!["feature-2".to_owned()]);
    assert_eq!(state.selected_index, 0);

    view_model.move_down(&mut state);
    view_model.move_down(&mut state);
    view_model.delete_selected_branches(&mut state);

    let expected_state = ViewState {
        branches: vec![
            BCBranch::new("main", PrStatus::NONE),
            BCBranch::with_pr("feature-1", PrStatus::OPEN, 1, "Feature 1"),
        ],
        selected_index: 0,
        selected_branches: vec![],
    };
    assert_eq!(state, expected_state);
}

// Scenario: a branch starting LOADING is auto-marked when its update says
// MERGED; a later downgrade to OPEN replaces the record but does not
// unmark it (downgrades never touch the marked set).
#[test]
fn merged_then_downgraded_branch_stays_marked() {
    let branches = vec![BCBranch::new("x", PrStatus::LOADING)];
    let mut state = ViewState::new(branches.clone());
    let view_model = BranchViewModel::new(InMemoryBranchStore::new(branches));

    view_model.update_branch(&mut state, BCBranch::with_pr("x", PrStatus::MERGED, 9, "T"));
    assert_eq!(state.selected_branches, vec!["x".to_owned()]);

    view_model.update_branch(&mut state, BCBranch::with_pr("x", PrStatus::OPEN, 9, "T"));
    assert_eq!(state.selected_branches, vec!["x".to_owned()]);
    assert_eq!(state.branches[0].pr_status, PrStatus::OPEN);
}

// An update for an unknown name leaves the whole state unchanged.
#[test]
fn update_for_unknown_name_leaves_state_unchanged() {
    let branches = create_test_branches();
    let mut state = ViewState::new(branches.clone());
    let view_model = BranchViewModel::new(InMemoryBranchStore::new(branches));
    let before = state.clone();

    view_model.update_branch(&mut state, BCBranch::with_pr("nowhere", PrStatus::MERGED, 7, "Gone"));

    assert_eq!(state, before);
}

// Updates replace records in place: the branch count never changes, however
// many updates stream in.
#[test]
fn updates_never_change_the_branch_count() {
    let branches = vec![
        BCBranch::new("a", PrStatus::LOADING),
        BCBranch::new("b", PrStatus::LOADING),
    ];
    let mut state = ViewState::new(branches.clone());
    let view_model = BranchViewModel::new(InMemoryBranchStore::new(branches));

    view_model.update_branch(&mut state, BCBranch::with_pr("b", PrStatus::MERGED, 1, "B"));
    view_model.update_branch(&mut state, BCBranch::new("a", PrStatus::NONE));
    view_model.update_branch(&mut state, BCBranch::with_pr("b", PrStatus::OPEN, 1, "B"));
    view_model.update_branch(&mut state, BCBranch::new("stranger", PrStatus::NONE));

    assert_eq!(state.branches.len(), 2);
}

// Navigation clamps at both ends and never touches list or marks.
#[test]
fn navigation_clamps_at_the_ends() {
    let branches = create_test_branches();
    let mut state = ViewState::new(branches.clone());
    let view_model = BranchViewModel::new(InMemoryBranchStore::new(branches));

    view_model.move_up(&mut state);
    assert_eq!(state.selected_index, 0);

    view_model.move_down(&mut state);
    view_model.move_down(&mut state);
    view_model.move_down(&mut state);
    assert_eq!(state.selected_index, 2);
}

// On an empty list every transition is a no-op that keeps the cursor at 0.
#[test]
fn empty_list_transitions_are_no_ops() {
    let mut state = ViewState::new(vec![]);
    let mut view_model = BranchViewModel::new(InMemoryBranchStore::new(vec![]));

    view_model.move_down(&mut state);
    view_model.move_up(&mut state);
    view_model.toggle_selection(&mut state);
    view_model.delete_selected_branches(&mut state);

    let expected = ViewState {
        branches: vec![],
        selected_index: 0,
        selected_branches: vec![],
    };
    assert_eq!(state, expected);
}
