use branch_cleaner::BCBranch;
use branch_cleaner::BranchViewModel;
use branch_cleaner::InMemoryBranchStore;
use branch_cleaner::PrStatus;
use branch_cleaner::ViewState;

fn create_test_branches() -> Vec<BCBranch> {
    vec![
        BCBranch::new("main", PrStatus::NONE),
        BCBranch::with_pr("feature-1", PrStatus::OPEN, 1, "Feature 1"),
        BCBranch::with_pr("feature-2", PrStatus::MERGED, 2, "Feature 2"),
    ]
}

#[test]
fn tui_can_create_view_state_with_branches() {
    let branches = create_test_branches();
    let state = ViewState::new(branches.clone());

    let expected_state = ViewState {
        branches: branches.clone(),
        selected_index: 0,
        selected_branches: vec!["feature-2".to_owned()], // Only merged branch
    };

    assert_eq!(state, expected_state);
}

#[test]
fn tui_viewmodel_loads_branches_from_store() {
    // Arrange: Create a store with test branches
    let test_branches = create_test_branches();
    let store = InMemoryBranchStore::new(test_branches.clone());
    let view_model = BranchViewModel::new(store);

    // Act: Load initial state from the viewmodel
    let view_state = view_model.load_initial_state();

    // Assert: ViewState contains branches from the store
    let expected_state = ViewState {
        branches: test_branches,
        selected_index: 0,
        selected_branches: vec!["feature-2".to_owned()], // Only merged branch
    };

    assert_eq!(view_state, expected_state);
}

#[test]
fn tui_move_down_increments_selected_index() {
    // Arrange
    let branches = create_test_branches();
    let mut state = ViewState::new(branches.clone());
    let store = InMemoryBranchStore::new(branches.clone());
    let view_model = BranchViewModel::new(store);

    // Act: Mutate state in place
    view_model.move_down(&mut state);

    // Assert: Check entire state
    let expected_state = ViewState {
        branches: branches.clone(),
        selected_index: 1,
        selected_branches: vec!["feature-2".to_owned()], // Selection unchanged
    };

    assert_eq!(state, expected_state);
}

#[test]
fn tui_move_up_decrements_selected_index() {
    // Arrange
    let branches = create_test_branches();
    let mut state = ViewState::new(branches.clone());
    let store = InMemoryBranchStore::new(branches.clone());
    let view_model = BranchViewModel::new(store);

    // Act: Move down twice, then up once (mutating state)
    view_model.move_down(&mut state);
    view_model.move_down(&mut state);
    view_model.move_up(&mut state);

    // Assert: Check entire state
    let expected_state = ViewState {
        branches: branches.clone(),
        selected_index: 1,
        selected_branches: vec!["feature-2".to_owned()], // Selection unchanged
    };

    assert_eq!(state, expected_state);
}

#[test]
fn tui_toggle_selection_adds_unselected_branch() {
    // Arrange: State at index 0 (main branch, not pre-selected)
    let branches = create_test_branches();
    let mut state = ViewState::new(branches.clone());
    let store = InMemoryBranchStore::new(branches.clone());
    let view_model = BranchViewModel::new(store);

    // Act: Toggle selection of current branch (main at index 0)
    view_model.toggle_selection(&mut state);

    // Assert: main is now selected
    let expected_state = ViewState {
        branches: branches.clone(),
        selected_index: 0,
        selected_branches: vec!["feature-2".to_owned(), "main".to_owned()],
    };

    assert_eq!(state, expected_state);
}

#[test]
fn tui_toggle_selection_removes_selected_branch() {
    // Arrange: Move to feature-2 (index 2, already selected)
    let branches = create_test_branches();
    let mut state = ViewState::new(branches.clone());
    let store = InMemoryBranchStore::new(branches.clone());
    let view_model = BranchViewModel::new(store);
    view_model.move_down(&mut state);
    view_model.move_down(&mut state);

    // Act: Toggle selection of current branch (feature-2)
    view_model.toggle_selection(&mut state);

    // Assert: feature-2 is now unselected
    let expected_state = ViewState {
        branches: branches.clone(),
        selected_index: 2,
        selected_branches: vec![], // Empty - feature-2 removed
    };

    assert_eq!(state, expected_state);
}

#[test]
fn tui_delete_selected_branches_removes_them_and_reloads_state() {
    // Arrange: State with feature-2 selected (merged)
    let branches = create_test_branches();
    let mut state = ViewState::new(branches.clone());
    let store = InMemoryBranchStore::new(branches.clone());
    let mut view_model = BranchViewModel::new(store);

    // Act: Delete selected branches
    view_model.delete_selected_branches(&mut state);

    // Assert: feature-2 is deleted, state reloaded with remaining branches
    let expected_branches = vec![
        BCBranch::new("main", PrStatus::NONE),
        BCBranch::with_pr("feature-1", PrStatus::OPEN, 1, "Feature 1"),
    ];

    let expected_state = ViewState {
        branches: expected_branches,
        selected_index: 0,         // Reset to 0
        selected_branches: vec![], // No merged branches remain
    };

    assert_eq!(state, expected_state);
}
