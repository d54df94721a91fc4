use gitlogue::git::{Commit, DiffHunk, GitError, GitRepository};

fn commit(i: usize, author: &str, timestamp: u64) -> Commit {
    Commit {
        id: format!("c{}", i),
        author: author.to_string(),
        timestamp,
        message: format!("commit {}", i),
        files: vec![format!("file{}.rs", i)],
    }
}

fn repo_with_authors(n: usize) -> GitRepository {
    let commits: Vec<Commit> = (0..n)
        .map(|i| commit(i, if i % 2 == 0 { "alice" } else { "bob" }, 1_000 + (i as u64) * 100))
        .collect();
    let diffs: Vec<Option<Vec<DiffHunk>>> = (0..n).map(|_| Some(Vec::new())).collect();
    GitRepository::new(commits, diffs)
}

// A five-commit revision range over a longer history has exactly five
// commits, and navigating inside it never leaves the subsequence.
#[test]
fn head_range_has_five_commits() {
    let mut repo = repo_with_authors(10);
    assert!(repo.set_commit_range("HEAD~5..HEAD").is_ok());
    assert_eq!(repo.get_range_count(), 5);

    let mut seen = Vec::new();
    while let Ok(c) = repo.next_range_commit_asc() {
        seen.push(c.id);
    }
    assert_eq!(seen, vec!["c5", "c6", "c7", "c8", "c9"]);
}

// A two-ended range selects the commits strictly after the older
// endpoint up to and including the newer one.
#[test]
fn two_ended_range() {
    let mut repo = repo_with_authors(10);
    assert!(repo.set_commit_range("HEAD~3..HEAD~1").is_ok());
    assert_eq!(repo.get_range_count(), 2);
    assert_eq!(repo.next_range_commit_asc().unwrap().id, "c7");
    assert_eq!(repo.next_range_commit_asc().unwrap().id, "c8");
    assert_eq!(
        repo.next_range_commit_asc().unwrap_err(),
        GitError::AtSequenceEnd
    );
}

// Expressions that match no supported form are invalid; an older
// endpoint before the first commit cannot be resolved; a reversed or
// zero-width range is empty. Failures leave a previously installed
// filter untouched.
#[test]
fn range_error_kinds() {
    let mut repo = repo_with_authors(10);
    assert_eq!(
        repo.set_commit_range("garbage").unwrap_err(),
        GitError::InvalidRangeSpec
    );
    assert_eq!(
        repo.set_commit_range("HEAD~..HEAD").unwrap_err(),
        GitError::InvalidRangeSpec
    );
    assert_eq!(
        repo.set_commit_range("HEAD~50..HEAD").unwrap_err(),
        GitError::InvalidRangeSpec
    );
    assert_eq!(
        repo.set_commit_range("HEAD~2..HEAD~5").unwrap_err(),
        GitError::EmptyRange
    );
    assert_eq!(
        repo.set_commit_range("HEAD~0..HEAD").unwrap_err(),
        GitError::EmptyRange
    );

    assert!(repo.set_commit_range("HEAD~4..HEAD").is_ok());
    assert_eq!(repo.get_range_count(), 4);
    // a failing expression must not disturb the active filter
    assert!(repo.set_commit_range("HEAD~9..HEAD~9").is_err());
    assert_eq!(repo.get_range_count(), 4);
}

// The author filter keeps exactly the commits with that author, in
// order; an author nobody has yields an empty range.
#[test]
fn author_filter() {
    let mut repo = repo_with_authors(6);
    assert!(repo.set_commit_range("author:alice").is_ok());
    assert_eq!(repo.get_range_count(), 3);
    assert_eq!(repo.next_range_commit_asc().unwrap().id, "c0");
    assert_eq!(repo.next_range_commit_asc().unwrap().id, "c2");
    assert_eq!(repo.next_range_commit_asc().unwrap().id, "c4");
    assert_eq!(
        repo.set_commit_range("author:nobody").unwrap_err(),
        GitError::EmptyRange
    );
}

// The date filter keeps the commits made at or after the given second.
#[test]
fn since_filter() {
    let mut repo = repo_with_authors(6);
    assert!(repo.set_commit_range("since:1300").is_ok());
    assert_eq!(repo.get_range_count(), 3);
    assert_eq!(repo.next_range_commit_asc().unwrap().id, "c3");
    assert_eq!(
        repo.set_commit_range("since:99999").unwrap_err(),
        GitError::EmptyRange
    );
    assert_eq!(
        repo.set_commit_range("since:abc").unwrap_err(),
        GitError::InvalidRangeSpec
    );
    // a timestamp too large for 64 bits matches nothing
    assert_eq!(
        repo.set_commit_range("since:99999999999999999999999").unwrap_err(),
        GitError::EmptyRange
    );
}

// Installing a range rewinds the cursor; clearing it returns navigation
// to the full history.
#[test]
fn range_install_and_clear() {
    let mut repo = repo_with_authors(10);
    repo.set_commit_index(7);
    assert!(repo.set_commit_range("HEAD~2..HEAD").is_ok());
    assert_eq!(repo.get_commit_index(), 0);
    repo.clear_commit_range();
    assert_eq!(repo.get_range_count(), 0);
    assert_eq!(repo.next_asc_commit().unwrap().id, "c0");
}

// Without an active filter, range-scoped navigation has nothing to
// walk and fails at the matching boundary.
#[test]
fn range_navigation_without_filter() {
    let mut repo = repo_with_authors(3);
    assert_eq!(
        repo.next_range_commit_asc().unwrap_err(),
        GitError::AtSequenceEnd
    );
    assert_eq!(
        repo.prev_range_commit_asc().unwrap_err(),
        GitError::AtSequenceStart
    );
}

// navigation_state reports the cursor, the active bound and the wrap
// flag.
#[test]
fn navigation_state_reports() {
    let mut repo = repo_with_authors(8);
    assert_eq!(repo.navigation_state(), (0, 8, false));
    repo.toggle_loop();
    assert!(repo.set_commit_range("HEAD~3..HEAD").is_ok());
    assert_eq!(repo.navigation_state(), (0, 3, true));
}
