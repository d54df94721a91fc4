use gitlogue::git::{hunks_from_diff_lines, DiffLineKind};

// Unified diff text becomes one hunk per `+++` header, with each marked
// line classified and its marker stripped; headers and hunk markers
// contribute nothing.
#[test]
fn hunks_from_unified_diff() {
    let text: Vec<String> = vec![
        "diff --git a/a.rs b/a.rs",
        "--- a/a.rs",
        "+++ b/a.rs",
        "@@ -1,2 +1,2 @@",
        "-old line",
        "+new line",
        " context",
        "+++ plain.txt",
        "+added",
    ]
    .into_iter()
    .map(String::from)
    .collect();
    let hunks = hunks_from_diff_lines(&text);
    assert_eq!(hunks.len(), 2);
    assert_eq!(hunks[0].file, "a.rs");
    assert_eq!(hunks[0].lines.len(), 3);
    assert_eq!(hunks[0].lines[0].kind, DiffLineKind::Removed);
    assert_eq!(hunks[0].lines[0].content, "old line");
    assert_eq!(hunks[0].lines[1].kind, DiffLineKind::Added);
    assert_eq!(hunks[0].lines[1].content, "new line");
    assert_eq!(hunks[0].lines[2].kind, DiffLineKind::Unchanged);
    assert_eq!(hunks[0].lines[2].content, "context");
    assert_eq!(hunks[1].file, "plain.txt");
    assert_eq!(hunks[1].lines.len(), 1);
    assert_eq!(hunks[1].lines[0].kind, DiffLineKind::Added);
    assert_eq!(hunks[1].lines[0].content, "added");
}

// Marked lines before any header, and text with no headers at all,
// yield nothing.
#[test]
fn diff_lines_without_header() {
    let text: Vec<String> = vec!["+stray", "-stray", "plain"]
        .into_iter()
        .map(String::from)
        .collect();
    assert_eq!(hunks_from_diff_lines(&text).len(), 0);
    assert_eq!(hunks_from_diff_lines(&Vec::new()).len(), 0);
}
