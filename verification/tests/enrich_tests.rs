use branch_cleaner::classify_pr;
use branch_cleaner::enrich_records;
use branch_cleaner::format_status_for_display;
use branch_cleaner::map_key;
use branch_cleaner::record_from_lookup;
use branch_cleaner::AppSignal;
use branch_cleaner::BCBranch;
use branch_cleaner::BranchCleanerError;
use branch_cleaner::BranchViewModel;
use branch_cleaner::InMemoryBranchStore;
use branch_cleaner::BranchCleanerApp;
use branch_cleaner::InputKey;
use branch_cleaner::KeyAction;
use branch_cleaner::PrStatus;
use branch_cleaner::ViewState;

#[test]
fn classification_prefers_merged_then_open() {
    assert_eq!(classify_pr(true, false), PrStatus::MERGED);
    assert_eq!(classify_pr(true, true), PrStatus::MERGED);
    assert_eq!(classify_pr(false, true), PrStatus::OPEN);
    assert_eq!(classify_pr(false, false), PrStatus::CLOSED);
}

#[test]
fn record_from_found_pull_request_carries_its_data() {
    let found = Some((PrStatus::OPEN, 42, "My Feature".to_owned()));

    let rec = record_from_lookup("feature-1", &found);

    assert_eq!(rec, BCBranch::with_pr("feature-1", PrStatus::OPEN, 42, "My Feature"));
}

#[test]
fn record_from_missing_or_failed_lookup_degrades_to_none() {
    let rec = record_from_lookup("feature-1", &None);

    assert_eq!(rec, BCBranch::new("feature-1", PrStatus::NONE));
}

#[test]
fn enrichment_yields_one_record_per_name_in_order() {
    let names = vec!["a".to_owned(), "b".to_owned(), "c".to_owned()];
    let lookups = vec![
        None,
        Some((PrStatus::MERGED, 7, "B".to_owned())),
        Some((PrStatus::CLOSED, 8, "C".to_owned())),
    ];

    let records = enrich_records(&names, &lookups);

    assert_eq!(
        records,
        vec![
            BCBranch::new("a", PrStatus::NONE),
            BCBranch::with_pr("b", PrStatus::MERGED, 7, "B"),
            BCBranch::with_pr("c", PrStatus::CLOSED, 8, "C"),
        ]
    );
    assert!(records.iter().all(|r| r.pr_status != PrStatus::LOADING));
}

#[test]
fn status_labels_match_the_display() {
    assert_eq!(format_status_for_display(PrStatus::OPEN), "OPEN");
    assert_eq!(format_status_for_display(PrStatus::MERGED), "MERGED ✓");
    assert_eq!(format_status_for_display(PrStatus::CLOSED), "CLOSED");
    assert_eq!(format_status_for_display(PrStatus::NONE), "No PR");
    assert_eq!(format_status_for_display(PrStatus::LOADING), "Loading...");
}

#[test]
fn key_bindings_raise_the_expected_actions() {
    assert_eq!(map_key(InputKey::Up), KeyAction::Apply(AppSignal::MoveUp));
    assert_eq!(map_key(InputKey::Down), KeyAction::Apply(AppSignal::MoveDown));
    assert_eq!(map_key(InputKey::Char(' ')), KeyAction::Apply(AppSignal::ToggleSelection));
    assert_eq!(map_key(InputKey::Char('d')), KeyAction::Apply(AppSignal::DeleteSelected));
    assert_eq!(map_key(InputKey::Char('q')), KeyAction::Exit);
    assert_eq!(map_key(InputKey::Char('z')), KeyAction::Propagate);
}

#[test]
fn signals_drive_the_view_model_transitions() {
    let branches = vec![
        BCBranch::new("main", PrStatus::NONE),
        BCBranch::with_pr("feature-2", PrStatus::MERGED, 2, "Feature 2"),
    ];
    let view_model = BranchViewModel::new(InMemoryBranchStore::new(branches));
    let mut state = view_model.load_initial_state();
    let mut app = BranchCleanerApp::new(view_model);

    app.handle_signal(&mut state, &AppSignal::MoveDown);
    assert_eq!(state.selected_index, 1);

    app.handle_signal(&mut state, &AppSignal::Noop);
    assert_eq!(state.selected_index, 1);

    app.handle_signal(&mut state, &AppSignal::DeleteSelected);
    let expected = ViewState {
        branches: vec![BCBranch::new("main", PrStatus::NONE)],
        selected_index: 0,
        selected_branches: vec![],
    };
    assert_eq!(state, expected);
}

#[test]
fn error_messages_name_their_cause() {
    assert_eq!(
        BranchCleanerError::GitError("boom".to_owned()).message(),
        "Git error: boom"
    );
    assert_eq!(
        BranchCleanerError::GitHubError("boom".to_owned()).message(),
        "GitHub API error: boom"
    );
    assert_eq!(
        BranchCleanerError::RemoteParseError("boom".to_owned()).message(),
        "Remote URL parsing error: boom"
    );
    assert_eq!(
        BranchCleanerError::TokenNotFound.message(),
        "GitHub token not found in environment"
    );
    assert_eq!(
        BranchCleanerError::NoOriginRemote.message(),
        "No origin remote found in repository"
    );
}
