use gitlogue::git::{Commit, DiffHunk, GitError, GitRepository};

fn sample_commit(i: usize) -> Commit {
    Commit {
        id: format!("c{}", i),
        author: if i % 2 == 0 { "alice".to_string() } else { "bob".to_string() },
        timestamp: 1_000 + (i as u64) * 100,
        message: format!("commit {}", i),
        files: vec![format!("file{}.rs", i)],
    }
}

fn sample_repo(n: usize) -> GitRepository {
    let commits: Vec<Commit> = (0..n).map(sample_commit).collect();
    let diffs: Vec<Option<Vec<DiffHunk>>> = (0..n).map(|_| Some(Vec::new())).collect();
    GitRepository::new(commits, diffs)
}

// Navigation wrapping behavior: with loop mode off the cursor refuses to
// move past either end; an explicit reset (the wrap retry path) resumes
// at the first commit, and from the end sentinel a backward step lands
// on the last commit.
#[test]
fn test_navigation_wrapping_with_loop() {
    let mut repo = sample_repo(5);

    if let Ok(total_commits) = repo.get_commit_count() {
        if total_commits > 1 {
            // Test forward wrapping
            // Set index to last position (after all commits have been played)
            repo.set_commit_index(total_commits);

            // Try to get next commit - should fail (end of sequence)
            let result = repo.next_asc_commit();
            assert!(result.is_err(), "Should reach end of sequence");

            // Reset index to simulate wrapping
            repo.reset_index();
            let result = repo.next_asc_commit();
            assert!(result.is_ok(), "Should wrap to first commit");

            // Test backward wrapping
            repo.set_commit_index(0);

            // Try to get previous commit - should fail (beginning of sequence)
            let result = repo.prev_asc_commit();
            assert!(result.is_err(), "Should be at beginning of sequence");

            // Set to last to simulate wrapping (index at last commit, not after)
            repo.set_commit_index(total_commits - 1);
            // First get the last commit (which will increment index to total_commits)
            let _ = repo.next_asc_commit();
            // Now we're at the end, reset and go backward
            repo.set_commit_index(total_commits);
            let result = repo.prev_asc_commit();
            assert!(result.is_ok(), "Should wrap to last commit");
        }
    }
}

// Navigation sequence correctness: from an interior position, forward
// loads position+1 and backward returns to the original position.
#[test]
fn test_navigation_sequence_correctness() {
    let mut repo = sample_repo(7);

    if let Ok(total_commits) = repo.get_commit_count() {
        if total_commits > 2 {
            // Start at middle position
            let middle = total_commits / 2;
            repo.set_commit_index(middle);

            // Navigate forward
            let result = repo.next_asc_commit();
            assert!(result.is_ok(), "Should navigate forward successfully");

            let index_after_next = repo.get_commit_index();
            assert_eq!(index_after_next, middle + 1, "Should be at position+1 after next");

            // Navigate backward
            let result = repo.prev_asc_commit();
            assert!(result.is_ok(), "Should navigate backward successfully");

            let index_after_prev = repo.get_commit_index();
            assert_eq!(index_after_prev, middle, "Should be at original position after prev");
        }
    }
}

// Navigation boundary conditions: no movement before the first commit or
// past the end sentinel.
#[test]
fn test_navigation_boundary_conditions() {
    let mut repo = sample_repo(4);

    if let Ok(total_commits) = repo.get_commit_count() {
        if total_commits > 1 {
            // Test at beginning
            repo.set_commit_index(0);
            let result = repo.prev_asc_commit();
            assert!(result.is_err(), "Should not navigate before first commit");

            // Test at end (index must be >= total_commits to fail)
            repo.set_commit_index(total_commits);
            let result = repo.next_asc_commit();
            assert!(result.is_err(), "Should not navigate past last commit");
        }
    }
}

// Navigation respects filtering: with a revision range installed,
// navigation moves only between commits of the filtered subsequence.
#[test]
fn test_navigation_with_range() {
    let mut repo = sample_repo(10);

    if repo.set_commit_range("HEAD~5..HEAD").is_ok() {
        let range_size = repo.get_range_count();

        if range_size > 1 {
            // Navigate within range
            repo.set_commit_index(0);
            let result = repo.next_range_commit_asc();
            assert!(result.is_ok(), "Should navigate within range");

            let index = repo.get_commit_index();
            assert_eq!(index, 1, "Should advance to next commit in range");
        }
    }
}

// Navigation interruption: each navigation step resolves a fresh commit;
// the animation over the previous one is reset by the caller.
#[test]
fn test_navigation_interruption() {
    let mut repo = sample_repo(3);

    if let Ok(total_commits) = repo.get_commit_count() {
        if total_commits > 1 {
            // Load first commit
            repo.set_commit_index(0);
            let first_commit = repo.next_asc_commit();
            assert!(first_commit.is_ok(), "Should load first commit");

            // Navigate to next commit - this simulates interruption
            let second_commit = repo.next_asc_commit();
            assert!(second_commit.is_ok(), "Should load second commit");

            // Verify we're at the second commit (index should be 2 now)
            let index = repo.get_commit_index();
            assert_eq!(index, 2, "Should be at second commit after navigation");
        }
    }
}

// With loop disabled the boundary errors carry their own kinds.
#[test]
fn boundary_error_kinds() {
    let mut repo = sample_repo(3);
    repo.set_commit_index(3);
    assert_eq!(repo.next_asc_commit().unwrap_err(), GitError::AtSequenceEnd);
    repo.set_commit_index(0);
    assert_eq!(repo.prev_asc_commit().unwrap_err(), GitError::AtSequenceStart);
}

// With loop enabled, forward from the sentinel lands on the first
// commit directly; backward from 0 jumps to the bound and steps back,
// landing on the last commit.
#[test]
fn loop_enabled_wrapping() {
    let mut repo = sample_repo(4);
    repo.set_loop_enabled(true);
    repo.set_commit_index(4);
    let c = repo.next_asc_commit().unwrap();
    assert_eq!(c.id, "c0");
    assert_eq!(repo.get_commit_index(), 1);

    repo.set_commit_index(0);
    let c = repo.prev_asc_commit().unwrap();
    assert_eq!(c.id, "c3");
    assert_eq!(repo.get_commit_index(), 3);
}

// Round trip from an interior position returns both the index and the
// commit it resolves.
#[test]
fn interior_round_trip() {
    let mut repo = sample_repo(5);
    repo.set_commit_index(2);
    let forward = repo.next_asc_commit().unwrap();
    assert_eq!(forward.id, "c2");
    assert_eq!(repo.get_commit_index(), 3);
    let back = repo.prev_asc_commit().unwrap();
    assert_eq!(back.id, "c2");
    assert_eq!(repo.get_commit_index(), 2);
}

// A single-commit history without loop: at the boundaries every call
// fails, and the displayed commit never changes.
#[test]
fn single_commit_navigation() {
    let mut repo = sample_repo(1);
    let first = repo.next_asc_commit().unwrap();
    assert_eq!(first.id, "c0");
    let shown = repo.current_commit().unwrap().id;

    assert!(repo.next_asc_commit().is_err());
    assert_eq!(repo.current_commit().unwrap().id, shown);
    repo.set_commit_index(0);
    assert!(repo.prev_asc_commit().is_err());
    assert_eq!(repo.current_commit().unwrap().id, shown);
    // the only commit a successful step can show is the same one
    let again = repo.prev_desc_commit();
    if let Ok(c) = again {
        assert_eq!(c.id, shown);
    }
}

// Descending navigation mirrors ascending with positions reinterpreted:
// the first forward step visits the most recent commit.
#[test]
fn descending_navigation() {
    let mut repo = sample_repo(4);
    let newest = repo.next_desc_commit().unwrap();
    assert_eq!(newest.id, "c3");
    let older = repo.next_desc_commit().unwrap();
    assert_eq!(older.id, "c2");
    // the backward step revisits the commit just shown, as in ascending order
    let back = repo.prev_desc_commit().unwrap();
    assert_eq!(back.id, "c2");
}

// commit_at and diff_for report their own error kinds; cached results
// repeat structurally equal.
#[test]
fn store_lookup_errors() {
    let commits = vec![sample_commit(0), sample_commit(1)];
    let diffs = vec![Some(Vec::new()), None];
    let repo = GitRepository::new(commits, diffs);
    assert_eq!(repo.commit_at(0).unwrap().id, "c0");
    assert_eq!(repo.commit_at(0).unwrap().id, "c0");
    assert_eq!(repo.commit_at(5).unwrap_err(), GitError::IndexOutOfRange);
    assert!(repo.diff_for(0).is_ok());
    assert_eq!(repo.diff_for(1).unwrap_err(), GitError::DiffUnavailable);
    assert_eq!(repo.diff_for(9).unwrap_err(), GitError::IndexOutOfRange);
}

// A failed navigation leaves the cursor exactly where it was.
#[test]
fn failed_navigation_keeps_cursor() {
    let mut repo = sample_repo(2);
    repo.set_commit_index(2);
    assert!(repo.next_asc_commit().is_err());
    assert_eq!(repo.get_commit_index(), 2);
    repo.set_commit_index(0);
    assert!(repo.prev_asc_commit().is_err());
    assert_eq!(repo.get_commit_index(), 0);
}
