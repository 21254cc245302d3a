use branch_cleaner::deletable_branch_names;
use branch_cleaner::get_local_branches;
use branch_cleaner::parse_github_remote;
use branch_cleaner::BranchCleanerError;
use branch_cleaner::BranchRepository;

#[test]
fn can_parse_ssh_github_url() {
    let (owner, repo) = parse_github_remote("git@github.com:owner/repo.git").unwrap();
    assert_eq!(owner, "owner");
    assert_eq!(repo, "repo");
}

#[test]
fn can_parse_https_github_url() {
    let (owner, repo) = parse_github_remote("https://github.com/owner/repo").unwrap();
    assert_eq!(owner, "owner");
    assert_eq!(repo, "repo");
}

#[test]
fn can_parse_https_github_url_with_git_extension() {
    let (owner, repo) = parse_github_remote("https://github.com/owner/repo.git").unwrap();
    assert_eq!(owner, "owner");
    assert_eq!(repo, "repo");
}

#[test]
fn error_on_invalid_url() {
    // Test with a clearly invalid git URL
    let result = parse_github_remote("not-a-valid-url");
    assert!(result.is_err());
}

// "ssh"-schemed URLs without a usable path are rejected up front (the
// underlying parser cannot handle them).
#[test]
fn ssh_scheme_without_path_is_rejected() {
    assert!(parse_github_remote("ssh://github.com").is_err());
    assert!(parse_github_remote("ssh://host:22").is_err());
    assert!(parse_github_remote("git+ssh://host").is_err());
    assert!(parse_github_remote("ssh://::@host/owner/repo").is_err());
}

#[test]
fn ssh_scheme_with_owner_and_repo_parses() {
    let (owner, repo) = parse_github_remote("ssh://git@github.com/owner/repo.git").unwrap();
    assert_eq!(owner, "owner");
    assert_eq!(repo, "repo");
}

#[test]
fn parse_error_is_the_remote_parse_variant() {
    match parse_github_remote("not-a-valid-url") {
        Err(BranchCleanerError::RemoteParseError(_)) => {}
        other => panic!("expected a remote parse error, got {:?}", other),
    }
}

struct MockBranches {
    branches: Vec<String>,
}

impl MockBranches {
    fn new(branches: Vec<String>) -> Self {
        Self { branches }
    }
}

impl BranchRepository for MockBranches {
    fn list_branch_names(&self) -> Vec<String> {
        self.branches.clone()
    }
}

fn make_mock_branch_names() -> Vec<String> {
    vec!["main", "feature/multiple"]
        .into_iter()
        .map(str::to_owned)
        .collect()
}

#[test]
fn can_list_multiple_local_branches_in_repository() {
    let expected = make_mock_branch_names();

    let branches = MockBranches::new(make_mock_branch_names());

    assert_eq!(expected, get_local_branches(&branches))
}

#[test]
fn protected_and_current_branches_are_not_deletable() {
    let names = vec![
        "main".to_owned(),
        "master".to_owned(),
        "develop".to_owned(),
        "development".to_owned(),
        "feature-a".to_owned(),
        "feature-b".to_owned(),
    ];

    let out = deletable_branch_names(names, &Some("feature-b".to_owned()));

    assert_eq!(out, vec!["feature-a".to_owned()]);
}

#[test]
fn deletable_names_keep_listing_order_without_a_current_branch() {
    let names = vec!["zeta".to_owned(), "alpha".to_owned(), "main".to_owned()];

    let out = deletable_branch_names(names, &None);

    assert_eq!(out, vec!["zeta".to_owned(), "alpha".to_owned()]);
}
