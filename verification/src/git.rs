//! Commit store, navigation cursor and range filter.
//!
//! The repository's commit list is handed in as plain data (oldest first);
//! the store caches it for the life of the value and resolves indices to
//! commits. The cursor walks the list, or an installed filtered
//! subsequence, with wrap or no-wrap semantics.

use vstd::prelude::*;
use vstd::string::StrSliceExecFns;

verus! {

/// The error kinds of the library.
///
/// `AtSequenceStart` / `AtSequenceEnd` are recoverable boundary conditions;
/// the repository-access kinds are fatal to the operation that raised them
/// and leave the cursor unchanged.
#[derive(Debug, Clone, Copy, PartialEq, Eq, Structural)]
pub enum GitError {
    RepositoryNotFound,
    RepositoryCorrupt,
    IndexOutOfRange,
    DiffUnavailable,
    AtSequenceStart,
    AtSequenceEnd,
    InvalidRangeSpec,
    EmptyRange,
}

/// One commit: identifier, author, timestamp, message and the ordered list
/// of files it touches. Immutable once loaded.
#[derive(Debug)]
pub struct Commit {
    pub id: String,
    pub author: String,
    pub timestamp: u64,
    pub message: String,
    pub files: Vec<String>,
}

/// The mathematical content of a `Commit`.
pub struct CommitView {
    pub id: Seq<char>,
    pub author: Seq<char>,
    pub timestamp: u64,
    pub message: Seq<char>,
    pub files: Seq<Seq<char>>,
}

impl View for Commit {
    type V = CommitView;

    open spec fn view(&self) -> CommitView {
        CommitView {
            id: self.id@,
            author: self.author@,
            timestamp: self.timestamp,
            message: self.message@,
            files: self.files@.map_values(|f: String| f@),
        }
    }
}

impl Clone for Commit {
    fn clone(&self) -> (r: Self)
        ensures
            r@ == self@,
    {
        let mut files: Vec<String> = Vec::new();
        let mut k: usize = 0;
        while k < self.files.len()
            invariant
                k <= self.files.len(),
                files@.len() == k,
                forall|i: int| 0 <= i < k ==> files@[i]@ == self.files@[i]@,
            decreases self.files.len() - k,
        {
            files.push(self.files[k].clone());
            k = k + 1;
        }
        let r = Commit {
            id: self.id.clone(),
            author: self.author.clone(),
            timestamp: self.timestamp,
            message: self.message.clone(),
            files,
        };
        proof {
            assert(r@.files =~= self@.files);
        }
        r
    }
}

/// Whether a diff line was added, removed, or left unchanged.
#[derive(Debug, Clone, Copy, PartialEq, Eq, Structural)]
pub enum DiffLineKind {
    Added,
    Removed,
    Unchanged,
}

/// One line-level edit inside a hunk.
#[derive(Debug, Clone)]
pub struct DiffLine {
    pub kind: DiffLineKind,
    pub content: String,
}

/// The ordered line edits of one changed file.
#[derive(Debug, Clone)]
pub struct DiffHunk {
    pub file: String,
    pub lines: Vec<DiffLine>,
}

/// The mathematical content of a `DiffHunk`.
#[verifier::ext_equal]
pub struct HunkModel {
    pub file: Seq<char>,
    pub lines: Seq<(DiffLineKind, Seq<char>)>,
}

impl View for DiffHunk {
    type V = HunkModel;

    open spec fn view(&self) -> HunkModel {
        HunkModel {
            file: self.file@,
            lines: self.lines@.map_values(|l: DiffLine| (l.kind, l.content@)),
        }
    }
}

/// The hunks described by the first `n` lines of unified diff text.
///
/// A `+++ b/<file>` (or bare `+++ <file>`) header opens the hunk of one
/// changed file; inside a hunk, a line starting `+` is an added line,
/// `-` a removed one and a leading space an unchanged one, each
/// carrying the rest of the line; `--- ` headers and anything else
/// (hunk markers, the `diff` header) contribute nothing.
pub open spec fn diff_model(lines: Seq<Seq<char>>, n: int) -> Seq<HunkModel>
    decreases n,
{
    if n <= 0 {
        seq![]
    } else {
        let pre = diff_model(lines, n - 1);
        let ln = lines[n - 1];
        if ln.len() >= 6 && ln.subrange(0, 6) == seq!['+', '+', '+', ' ', 'b', '/'] {
            pre.push(HunkModel { file: ln.subrange(6, ln.len() as int), lines: seq![] })
        } else if ln.len() >= 4 && ln.subrange(0, 4) == seq!['+', '+', '+', ' '] {
            pre.push(HunkModel { file: ln.subrange(4, ln.len() as int), lines: seq![] })
        } else if ln.len() >= 4 && ln.subrange(0, 4) == seq!['-', '-', '-', ' '] {
            pre
        } else if pre.len() == 0 || ln.len() == 0 {
            pre
        } else if ln[0] == '+' || ln[0] == '-' || ln[0] == ' ' {
            let kind = if ln[0] == '+' {
                DiffLineKind::Added
            } else if ln[0] == '-' {
                DiffLineKind::Removed
            } else {
                DiffLineKind::Unchanged
            };
            let last = pre[pre.len() - 1];
            pre.update(
                pre.len() - 1,
                HunkModel {
                    file: last.file,
                    lines: last.lines.push((kind, ln.subrange(1, ln.len() as int))),
                },
            )
        } else {
            pre
        }
    }
}

/// Builds the hunks of one commit's diff from its unified diff text,
/// split into lines. This is the shape `diff_for` serves; the repository
/// backend only supplies the raw text.
pub fn hunks_from_diff_lines(lines: &Vec<String>) -> (r: Vec<DiffHunk>)
    ensures
        r@.map_values(|h: DiffHunk| h@) == diff_model(
            lines@.map_values(|s: String| s@),
            lines@.len() as int,
        ),
{
    let ghost ls = lines@.map_values(|s: String| s@);
    let mut out: Vec<DiffHunk> = Vec::new();
    let mut cur: Option<DiffHunk> = None;
    let mut k: usize = 0;
    while k < lines.len()
        invariant
            0 <= k <= lines@.len(),
            ls == lines@.map_values(|s: String| s@),
            match cur {
                Some(h) => out@.map_values(|h: DiffHunk| h@).push(h@) == diff_model(ls, k as int),
                None => out@.len() == 0 && diff_model(ls, k as int).len() == 0,
            },
        decreases lines@.len() - k,
    {
        let ln = &lines[k];
        let n = ln.as_str().unicode_len();
        proof {
            assert(ls[k as int] == ln@);
        }
        if has_prefix_at(ln.as_str(), 0, "+++ b/") {
            proof {
                reveal_strlit("+++ b/");
                assert("+++ b/"@ =~= seq!['+', '+', '+', ' ', 'b', '/']);
            }
            match cur {
                Some(h) => {
                    out.push(h);
                },
                None => {},
            }
            cur = Some(
                DiffHunk { file: ln.as_str().substring_char(6, n).to_owned(), lines: Vec::new() },
            );
            proof {
                assert(out@.map_values(|h: DiffHunk| h@) =~= diff_model(ls, k as int));
                assert(cur->0@.lines =~= Seq::<(DiffLineKind, Seq<char>)>::empty());
                assert(out@.map_values(|h: DiffHunk| h@).push(cur->0@) =~~= diff_model(
                    ls,
                    k + 1,
                ));
            }
        } else if has_prefix_at(ln.as_str(), 0, "+++ ") {
            proof {
                reveal_strlit("+++ ");
                reveal_strlit("+++ b/");
                assert("+++ "@ =~= seq!['+', '+', '+', ' ']);
                assert("+++ b/"@ =~= seq!['+', '+', '+', ' ', 'b', '/']);
            }
            match cur {
                Some(h) => {
                    out.push(h);
                },
                None => {},
            }
            cur = Some(
                DiffHunk { file: ln.as_str().substring_char(4, n).to_owned(), lines: Vec::new() },
            );
            proof {
                assert(out@.map_values(|h: DiffHunk| h@) =~= diff_model(ls, k as int));
                assert(cur->0@.lines =~= Seq::<(DiffLineKind, Seq<char>)>::empty());
                assert(out@.map_values(|h: DiffHunk| h@).push(cur->0@) =~~= diff_model(
                    ls,
                    k + 1,
                ));
            }
        } else if has_prefix_at(ln.as_str(), 0, "--- ") {
            proof {
                reveal_strlit("--- ");
                reveal_strlit("+++ ");
                reveal_strlit("+++ b/");
                assert("--- "@ =~= seq!['-', '-', '-', ' ']);
                assert("+++ "@ =~= seq!['+', '+', '+', ' ']);
                assert("+++ b/"@ =~= seq!['+', '+', '+', ' ', 'b', '/']);
            }
        } else {
            proof {
                reveal_strlit("--- ");
                reveal_strlit("+++ ");
                reveal_strlit("+++ b/");
                assert("--- "@ =~= seq!['-', '-', '-', ' ']);
                assert("+++ "@ =~= seq!['+', '+', '+', ' ']);
                assert("+++ b/"@ =~= seq!['+', '+', '+', ' ', 'b', '/']);
            }
            let marked = if n == 0 {
                None
            } else {
                let c = ln.as_str().get_char(0);
                if c == '+' {
                    Some(DiffLineKind::Added)
                } else if c == '-' {
                    Some(DiffLineKind::Removed)
                } else if c == ' ' {
                    Some(DiffLineKind::Unchanged)
                } else {
                    None
                }
            };
            match (&mut cur, marked) {
                (Some(h), Some(kind)) => {
                    let content = ln.as_str().substring_char(1, n).to_owned();
                    h.lines.push(DiffLine { kind, content });
                    proof {
                        assert(out@.map_values(|hh: DiffHunk| hh@).push(cur->0@) =~~= diff_model(
                            ls,
                            k + 1,
                        ));
                    }
                },
                _ => {},
            }
        }
        k = k + 1;
    }
    match cur {
        Some(h) => {
            out.push(h);
        },
        None => {},
    }
    proof {
        assert(out@.map_values(|h: DiffHunk| h@) =~= diff_model(ls, lines@.len() as int));
    }
    out
}

/// A decimal digit.
pub open spec fn is_digit(c: char) -> bool {
    48 <= c as int && c as int <= 57
}

/// The value of a run of decimal digits, most significant first.
pub open spec fn dec_val(s: Seq<char>) -> int
    decreases s.len(),
{
    if s.len() == 0 {
        0
    } else {
        dec_val(s.drop_last()) * 10 + (s.last() as int - 48)
    }
}

/// The first position at or after `from` that does not hold a digit
/// (the length of the text when digits run to its end).
pub open spec fn digit_run_end(s: Seq<char>, from: int) -> int
    decreases s.len() - from,
{
    if from < 0 || from >= s.len() {
        s.len() as int
    } else if is_digit(s[from]) {
        digit_run_end(s, from + 1)
    } else {
        from
    }
}

proof fn lemma_digit_run_end(s: Seq<char>, from: int)
    requires
        0 <= from <= s.len(),
    ensures
        from <= digit_run_end(s, from) <= s.len(),
        forall|k: int| from <= k < digit_run_end(s, from) ==> is_digit(s[k]),
        digit_run_end(s, from) < s.len() ==> !is_digit(s[digit_run_end(s, from)]),
    decreases s.len() - from,
{
    if from < s.len() && is_digit(s[from]) {
        lemma_digit_run_end(s, from + 1);
    }
}

/// The revision-range forms the library resolves: `HEAD~N..HEAD` and
/// `HEAD~N..HEAD~M`, each offset a non-empty run of decimal digits
/// counting back from the most recent commit. The result is the pair of
/// offsets (the right-hand one 0 for plain `HEAD`).
pub open spec fn parse_range_spec(s: Seq<char>) -> Option<(int, int)> {
    let j = digit_run_end(s, 5);
    if s.len() < 5 || s.subrange(0, 5) != seq!['H', 'E', 'A', 'D', '~'] {
        None
    } else if j == 5 {
        None
    } else if s.subrange(j, s.len() as int) == seq!['.', '.', 'H', 'E', 'A', 'D'] {
        Some((dec_val(s.subrange(5, j)), 0))
    } else if s.len() > j + 7 && s.subrange(j, j + 7) == seq!['.', '.', 'H', 'E', 'A', 'D', '~']
        && digit_run_end(s, j + 7) == s.len() {
        Some((dec_val(s.subrange(5, j)), dec_val(s.subrange(j + 7, s.len() as int))))
    } else {
        None
    }
}

/// The author filter form: `author:` followed by a non-empty name.
pub open spec fn parse_author_spec(s: Seq<char>) -> Option<Seq<char>> {
    if s.len() >= 8 && s.subrange(0, 7) == seq!['a', 'u', 't', 'h', 'o', 'r', ':'] {
        Some(s.subrange(7, s.len() as int))
    } else {
        None
    }
}

/// The date filter form: `since:` followed by a non-empty run of decimal
/// digits, a timestamp in seconds.
pub open spec fn parse_since_spec(s: Seq<char>) -> Option<int> {
    if s.len() > 6 && s.subrange(0, 6) == seq!['s', 'i', 'n', 'c', 'e', ':']
        && digit_run_end(s, 6) == s.len() {
        Some(dec_val(s.subrange(6, s.len() as int)))
    } else {
        None
    }
}

/// The indices below `n` of the commits that satisfy `f`, in increasing
/// order.
pub open spec fn matching_indices(commits: Seq<Commit>, f: spec_fn(Commit) -> bool, n: int) -> Seq<
    usize,
>
    decreases n,
{
    if n <= 0 {
        seq![]
    } else {
        let pre = matching_indices(commits, f, n - 1);
        if f(commits[n - 1]) {
            pre.push((n - 1) as usize)
        } else {
            pre
        }
    }
}

proof fn lemma_matching_indices_wf(commits: Seq<Commit>, f: spec_fn(Commit) -> bool, n: int)
    requires
        0 <= n <= commits.len(),
        n <= usize::MAX,
    ensures
        forall|i: int|
            0 <= i < matching_indices(commits, f, n).len() ==> matching_indices(commits, f, n)[i]
                < n,
        forall|i: int, j: int|
            0 <= i < j < matching_indices(commits, f, n).len() ==> matching_indices(
                commits,
                f,
                n,
            )[i] < matching_indices(commits, f, n)[j],
    decreases n,
{
    if n > 0 {
        lemma_matching_indices_wf(commits, f, n - 1);
        let pre = matching_indices(commits, f, n - 1);
        let cur = matching_indices(commits, f, n);
        if f(commits[n - 1]) {
            assert(cur == pre.push((n - 1) as usize));
            assert forall|i: int| 0 <= i < cur.len() implies cur[i] < n by {
                if i < pre.len() {
                    assert(cur[i] == pre[i]);
                }
            }
            assert forall|i: int, j: int| 0 <= i < j < cur.len() implies cur[i] < cur[j] by {
                if j < pre.len() {
                    assert(cur[i] == pre[i] && cur[j] == pre[j]);
                } else {
                    assert(cur[j] == (n - 1) as usize);
                    assert(cur[i] == pre[i] && pre[i] < n - 1);
                }
            }
        } else {
            assert(cur == pre);
        }
    }
}

/// The indices of the commits whose author is exactly `name`.
pub open spec fn author_indices(commits: Seq<Commit>, name: Seq<char>, n: int) -> Seq<usize> {
    matching_indices(commits, |c: Commit| c.author@ == name, n)
}

/// The indices of the commits made at or after time `t`.
pub open spec fn since_indices(commits: Seq<Commit>, t: int, n: int) -> Seq<usize> {
    matching_indices(commits, |c: Commit| c.timestamp as int >= t, n)
}

/// What installing the filter expression `expr` over `commits` yields:
/// the commit indices of the filtered subsequence, or the error.
///
/// A revision range `HEAD~N..HEAD~M` selects the commits strictly after
/// `HEAD~N` up to and including `HEAD~M`; it cannot be resolved when
/// either endpoint lies before the first commit, and it is empty when
/// `M >= N`. An author or date filter that matches nothing is empty; any
/// other expression is invalid.
pub open spec fn spec_resolve_filter(commits: Seq<Commit>, expr: Seq<char>) -> Result<
    Seq<usize>,
    GitError,
> {
    match parse_range_spec(expr) {
        Some(ab) => {
            let c = commits.len() as int;
            if ab.0 > c - 1 || ab.1 > c - 1 {
                Err(GitError::InvalidRangeSpec)
            } else if ab.1 >= ab.0 {
                Err(GitError::EmptyRange)
            } else {
                Ok(Seq::new((ab.0 - ab.1) as nat, |k: int| (c - ab.0 + k) as usize))
            }
        },
        None => match parse_author_spec(expr) {
            Some(name) => {
                let idxs = author_indices(commits, name, commits.len() as int);
                if idxs.len() == 0 {
                    Err(GitError::EmptyRange)
                } else {
                    Ok(idxs)
                }
            },
            None => match parse_since_spec(expr) {
                Some(t) => {
                    let idxs = since_indices(commits, t, commits.len() as int);
                    if idxs.len() == 0 {
                        Err(GitError::EmptyRange)
                    } else {
                        Ok(idxs)
                    }
                },
                None => Err(GitError::InvalidRangeSpec),
            },
        },
    }
}

/// Whether `p` stands in `s` starting at position `at`.
fn has_prefix_at(s: &str, at: usize, p: &str) -> (r: bool)
    requires
        at <= s@.len(),
    ensures
        r == (at + p@.len() <= s@.len() && s@.subrange(at as int, at + p@.len()) == p@),
{
    let sl = s.unicode_len();
    let pl = p.unicode_len();
    if pl > sl - at {
        return false;
    }
    let mut k: usize = 0;
    while k < pl
        invariant
            0 <= k <= pl,
            at + pl <= sl,
            sl == s@.len(),
            pl == p@.len(),
            forall|kk: int| 0 <= kk < k ==> s@[at + kk] == p@[kk],
        decreases pl - k,
    {
        if s.get_char(at + k) != p.get_char(k) {
            proof {
                assert(s@.subrange(at as int, at + p@.len())[k as int] != p@[k as int]);
            }
            return false;
        }
        k = k + 1;
    }
    proof {
        assert(s@.subrange(at as int, at + p@.len()) =~= p@);
    }
    true
}

/// The first position at or after `from` in `s` that holds no digit.
fn find_digit_run_end(s: &str, from: usize) -> (j: usize)
    requires
        from <= s@.len(),
    ensures
        j == digit_run_end(s@, from as int),
        from <= j <= s@.len(),
{
    let sl = s.unicode_len();
    let mut j: usize = from;
    while j < sl
        invariant
            from <= j <= sl,
            sl == s@.len(),
            digit_run_end(s@, from as int) == digit_run_end(s@, j as int),
        decreases sl - j,
    {
        let c = s.get_char(j);
        let u = c as u32;
        if !(48 <= u && u <= 57) {
            proof {
                lemma_digit_run_end(s@, j as int);
            }
            return j;
        }
        j = j + 1;
    }
    proof {
        lemma_digit_run_end(s@, j as int);
    }
    j
}

/// Reads the run of digits `s[from..to]` as a decimal number, or reports
/// that it does not fit in 64 bits.
fn parse_decimal(s: &str, from: usize, to: usize) -> (r: Option<u64>)
    requires
        from < to <= s@.len(),
        forall|k: int| from <= k < to ==> is_digit(s@[k]),
    ensures
        (r matches Some(v) ==> v as int == dec_val(s@.subrange(from as int, to as int))),
        (r is None <==> dec_val(s@.subrange(from as int, to as int)) > u64::MAX),
{
    let mut acc: u64 = 0;
    let mut over: bool = false;
    let mut k: usize = from;
    while k < to
        invariant
            from <= k <= to,
            to <= s@.len(),
            forall|kk: int| from <= kk < to ==> is_digit(s@[kk]),
            !over ==> acc as int == dec_val(s@.subrange(from as int, k as int)),
            over ==> dec_val(s@.subrange(from as int, k as int)) > u64::MAX,
        decreases to - k,
    {
        let c = s.get_char(k);
        let u = c as u32;
        let d: u64 = (u - 48) as u64;
        proof {
            assert(is_digit(s@[k as int]));
            assert(s@.subrange(from as int, k + 1).drop_last() =~= s@.subrange(
                from as int,
                k as int,
            ));
            assert(s@.subrange(from as int, k + 1).last() == s@[k as int]);
        }
        if over {
            // already too large; ten times more plus a digit stays too large
        } else if acc > 1844674407370955161u64 || (acc == 1844674407370955161u64 && d > 5) {
            over = true;
        } else {
            acc = acc * 10 + d;
        }
        k = k + 1;
    }
    proof {
        assert(s@.subrange(from as int, to as int) == s@.subrange(from as int, k as int));
    }
    if over {
        None
    } else {
        Some(acc)
    }
}

/// Whether a forward step from index `i` over bound `b` succeeds.
/// At `i == b` the sequence is exhausted; with wrap enabled (and a
/// non-empty sequence) the step restarts at the front instead.
pub open spec fn forward_ok(i: int, b: int, lp: bool) -> bool {
    i < b || (lp && b > 0)
}

/// The position a successful forward step visits.
pub open spec fn forward_pos(i: int, b: int) -> int {
    if i < b {
        i
    } else {
        0
    }
}

/// The index after a forward step (one past the visited position on
/// success, unchanged on failure).
pub open spec fn forward_next(i: int, b: int, lp: bool) -> int {
    if i < b {
        i + 1
    } else if lp && b > 0 {
        1
    } else {
        i
    }
}

/// Whether a backward step from index `i` over bound `b` succeeds.
pub open spec fn backward_ok(i: int, b: int, lp: bool) -> bool {
    i > 0 || (lp && b > 0)
}

/// The position a successful backward step visits. The wrap from 0 jumps
/// to the bound and immediately steps back once, landing on `b - 1`.
pub open spec fn backward_pos(i: int, b: int) -> int {
    if i > 0 {
        i - 1
    } else {
        b - 1
    }
}

/// The index after a backward step (the visited position on success,
/// unchanged on failure).
pub open spec fn backward_next(i: int, b: int, lp: bool) -> int {
    if i > 0 {
        i - 1
    } else if lp && b > 0 {
        b - 1
    } else {
        i
    }
}

/// With wrap disabled, a forward step at the exhausted sentinel (the
/// index one past the last position) fails, and a backward step at the
/// front fails, whatever the bound.
pub proof fn lemma_boundary_failures(b: int)
    requires
        b >= 0,
    ensures
        !forward_ok(b, b, false),
        !backward_ok(0, b, false),
{
}

/// Rewinding the cursor to the front of a non-empty sequence makes the
/// next forward step succeed, visit position 0, and leave the cursor at
/// 1 — the forward wrap lands on the first commit directly. From the
/// exhausted sentinel, a backward step succeeds and visits the last
/// position.
pub proof fn lemma_wrap_landings(b: int, lp: bool)
    requires
        b > 0,
    ensures
        forward_ok(0, b, lp),
        forward_pos(0, b) == 0,
        forward_next(0, b, lp) == 1,
        backward_ok(b, b, lp),
        backward_pos(b, b) == b - 1,
        backward_next(b, b, lp) == b - 1,
{
}

/// From a strictly interior position `p` the forward step visits `p` and
/// moves the cursor to `p + 1`; the backward step that follows visits
/// `p` again and returns the cursor to `p` — the round trip is exact.
pub proof fn lemma_interior_roundtrip(p: int, b: int, lp: bool)
    requires
        1 <= p < b,
    ensures
        forward_ok(p, b, lp),
        forward_pos(p, b) == p,
        forward_next(p, b, lp) == p + 1,
        backward_ok(p + 1, b, lp),
        backward_pos(p + 1, b) == p,
        backward_next(p + 1, b, lp) == p,
{
}

/// Over a single-commit sequence with wrap disabled, a forward step at
/// the sentinel fails, a backward step at the front fails, and any step
/// that does succeed visits position 0 — the displayed commit can never
/// change.
pub proof fn lemma_single_commit(i: int)
    requires
        0 <= i <= 1,
    ensures
        !forward_ok(1, 1, false),
        !backward_ok(0, 1, false),
        forward_ok(i, 1, false) ==> forward_pos(i, 1) == 0,
        backward_ok(i, 1, false) ==> backward_pos(i, 1) == 0,
{
}

/// The commit store together with the navigation cursor and the active
/// range filter.
///
/// `commits` is the full history, oldest first; `diffs[k]` is the cached
/// diff of `commits[k]` against its parent, or `None` where it could not
/// be computed. `range`, when set, holds the strictly increasing commit
/// indices of the filtered subsequence, and the cursor then walks that
/// subsequence. `displayed` is the commit most recently resolved by a
/// successful navigation step.
#[derive(Debug)]
pub struct GitRepository {
    pub commits: Vec<Commit>,
    pub diffs: Vec<Option<Vec<DiffHunk>>>,
    pub commit_index: usize,
    pub loop_enabled: bool,
    pub range: Option<Vec<usize>>,
    pub displayed: Option<usize>,
}

impl GitRepository {
    /// The bound the cursor currently runs under: the size of the active
    /// filtered subsequence, or the full commit count when no filter is set.
    pub open spec fn bound_spec(&self) -> int {
        match self.range {
            Some(r) => r@.len() as int,
            None => self.commits@.len() as int,
        }
    }

    /// The commit index that cursor position `p` resolves to.
    pub open spec fn commit_of_pos(&self, p: int) -> int {
        match self.range {
            Some(r) => r@[p] as int,
            None => p,
        }
    }

    /// Well-formedness: one diff slot per commit, the cursor within its
    /// bound, an installed filter non-empty, strictly increasing and in
    /// range, and the displayed commit a real one.
    pub open spec fn wf(&self) -> bool {
        &&& self.diffs@.len() == self.commits@.len()
        &&& 0 <= self.commit_index <= self.bound_spec()
        &&& match self.range {
            Some(r) => {
                &&& r@.len() > 0
                &&& forall|i: int| 0 <= i < r@.len() ==> r@[i] < self.commits@.len()
                &&& forall|i: int, j: int| 0 <= i < j < r@.len() ==> r@[i] < r@[j]
            },
            None => true,
        }
        &&& match self.displayed {
            Some(d) => d < self.commits@.len(),
            None => true,
        }
    }

    /// Builds a store over an already loaded history. `commits` is oldest
    /// first; `diffs[k]` belongs to `commits[k]`.
    pub fn new(commits: Vec<Commit>, diffs: Vec<Option<Vec<DiffHunk>>>) -> (r: Self)
        requires
            commits@.len() == diffs@.len(),
        ensures
            r.wf(),
            r.commits == commits,
            r.diffs == diffs,
            r.commit_index == 0,
            r.loop_enabled == false,
            r.range is None,
            r.displayed is None,
    {
        GitRepository {
            commits,
            diffs,
            commit_index: 0,
            loop_enabled: false,
            range: None,
            displayed: None,
        }
    }

    /// The size of the full history. Always available: the walk that
    /// produced the list happened when the store was built.
    pub fn get_commit_count(&self) -> (r: Result<usize, GitError>)
        ensures
            r == Ok::<usize, GitError>(self.commits.len()),
    {
        Ok(self.commits.len())
    }

    /// Resolves a commit index to its commit.
    pub fn commit_at(&self, index: usize) -> (r: Result<Commit, GitError>)
        ensures
            r.is_ok() == (index < self.commits@.len()),
            (r matches Ok(c) ==> c@ == self.commits@[index as int]@),
            (r matches Err(e) ==> e == GitError::IndexOutOfRange),
    {
        if index < self.commits.len() {
            Ok(self.commits[index].clone())
        } else {
            Err(GitError::IndexOutOfRange)
        }
    }

    /// The cached diff of the commit at `index`, or `DiffUnavailable`
    /// where none could be computed for it.
    pub fn diff_for(&self, index: usize) -> (r: Result<&Vec<DiffHunk>, GitError>)
        requires
            self.wf(),
        ensures
            r.is_ok() == (index < self.commits@.len() && self.diffs@[index as int] is Some),
            (r matches Ok(d) ==> self.diffs@[index as int] == Some(*d)),
            (r matches Err(e) ==> if index < self.commits@.len() {
                e == GitError::DiffUnavailable
            } else {
                e == GitError::IndexOutOfRange
            }),
    {
        if index < self.commits.len() {
            match &self.diffs[index] {
                Some(d) => Ok(d),
                None => Err(GitError::DiffUnavailable),
            }
        } else {
            Err(GitError::IndexOutOfRange)
        }
    }

    /// The cursor's current index.
    pub fn get_commit_index(&self) -> (r: usize)
        ensures
            r == self.commit_index,
    {
        self.commit_index
    }

    /// Moves the cursor directly to `i` (jump-to-commit and the wrap
    /// retry path). `i` may sit one past the end, the exhausted sentinel.
    pub fn set_commit_index(&mut self, i: usize)
        requires
            old(self).wf(),
            i <= old(self).bound_spec(),
        ensures
            final(self).wf(),
            *final(self) == (GitRepository { commit_index: i, ..*old(self) }),
    {
        self.commit_index = i;
    }

    /// Moves the cursor back to the front of the sequence.
    pub fn reset_index(&mut self)
        requires
            old(self).wf(),
        ensures
            final(self).wf(),
            *final(self) == (GitRepository { commit_index: 0usize, ..*old(self) }),
    {
        self.commit_index = 0;
    }

    /// Flips wrap-around navigation.
    pub fn toggle_loop(&mut self)
        requires
            old(self).wf(),
        ensures
            final(self).wf(),
            *final(self) == (GitRepository { loop_enabled: !old(self).loop_enabled, ..*old(self) }),
    {
        self.loop_enabled = !self.loop_enabled;
    }

    /// Sets wrap-around navigation.
    pub fn set_loop_enabled(&mut self, lp: bool)
        requires
            old(self).wf(),
        ensures
            final(self).wf(),
            *final(self) == (GitRepository { loop_enabled: lp, ..*old(self) }),
    {
        self.loop_enabled = lp;
    }

    /// The size of the active filtered subsequence; 0 when no filter is
    /// installed.
    pub fn get_range_count(&self) -> (r: usize)
        ensures
            r == match self.range {
                Some(rr) => rr@.len() as int,
                None => 0,
            },
    {
        match &self.range {
            Some(rr) => rr.len(),
            None => 0,
        }
    }

    /// Drops the active range filter and rewinds the cursor.
    pub fn clear_commit_range(&mut self)
        requires
            old(self).wf(),
        ensures
            final(self).wf(),
            *final(self) == (GitRepository {
                range: None,
                commit_index: 0usize,
                ..*old(self)
            }),
    {
        self.range = None;
        self.commit_index = 0;
    }

    /// The index of the commit most recently resolved by a successful
    /// navigation step, into the full history.
    pub fn displayed_index(&self) -> (r: Option<usize>)
        ensures
            r == self.displayed,
    {
        self.displayed
    }

    /// The commit most recently resolved by a successful navigation step.
    pub fn current_commit(&self) -> (r: Option<Commit>)
        requires
            self.wf(),
        ensures
            r is Some == self.displayed is Some,
            (r matches Some(c) ==> c@ == self.commits@[self.displayed->0 as int]@),
    {
        match self.displayed {
            Some(d) => Some(self.commits[d].clone()),
            None => None,
        }
    }

    /// The cursor index, the bound it runs under, and the wrap flag.
    pub fn navigation_state(&self) -> (r: (usize, usize, bool))
        requires
            self.wf(),
        ensures
            r.0 == self.commit_index,
            r.1 == self.bound_spec(),
            r.2 == self.loop_enabled,
    {
        let b: usize = match &self.range {
            Some(rr) => rr.len(),
            None => self.commits.len(),
        };
        (self.commit_index, b, self.loop_enabled)
    }

    /// The bound the cursor currently runs under.
    fn bound(&self) -> (r: usize)
        requires
            self.wf(),
        ensures
            r == self.bound_spec(),
    {
        match &self.range {
            Some(rr) => rr.len(),
            None => self.commits.len(),
        }
    }

    /// Resolves a cursor position to a commit index through the active
    /// filter.
    fn resolve_pos(&self, p: usize) -> (r: usize)
        requires
            self.wf(),
            p < self.bound_spec(),
        ensures
            r == self.commit_of_pos(p as int),
            r < self.commits@.len(),
    {
        match &self.range {
            Some(rr) => rr[p],
            None => p,
        }
    }

    /// Steps the cursor forward and resolves the visited position,
    /// walking the active sequence front to back (oldest first).
    ///
    /// At the exhausted sentinel (`index == bound`) the step fails with
    /// `AtSequenceEnd` unless wrap is enabled, in which case the cursor
    /// rewinds to the front and retries once, landing on position 0.
    pub fn next_asc_commit(&mut self) -> (r: Result<Commit, GitError>)
        requires
            old(self).wf(),
        ensures
            final(self).wf(),
            final(self).commits == old(self).commits,
            final(self).diffs == old(self).diffs,
            final(self).range == old(self).range,
            final(self).loop_enabled == old(self).loop_enabled,
            r.is_ok() == forward_ok(
                old(self).commit_index as int,
                old(self).bound_spec(),
                old(self).loop_enabled,
            ),
            (r matches Ok(c) ==> {
                let ci = old(self).commit_of_pos(
                    forward_pos(old(self).commit_index as int, old(self).bound_spec()),
                );
                &&& c@ == old(self).commits@[ci]@
                &&& final(self).commit_index == forward_next(
                    old(self).commit_index as int,
                    old(self).bound_spec(),
                    old(self).loop_enabled,
                )
                &&& final(self).displayed == Some(ci as usize)
            }),
            (r matches Err(e) ==> e == GitError::AtSequenceEnd && *final(self) == *old(self)),
    {
        let b = self.bound();
        if self.commit_index < b {
            let ci = self.resolve_pos(self.commit_index);
            let c = self.commits[ci].clone();
            self.commit_index = self.commit_index + 1;
            self.displayed = Some(ci);
            Ok(c)
        } else if self.loop_enabled && b > 0 {
            self.commit_index = 0;
            let ci = self.resolve_pos(0);
            let c = self.commits[ci].clone();
            self.commit_index = 1;
            self.displayed = Some(ci);
            Ok(c)
        } else {
            Err(GitError::AtSequenceEnd)
        }
    }

    /// Steps the cursor backward and resolves the visited position,
    /// walking the active sequence front to back (oldest first).
    ///
    /// At position 0 the step fails with `AtSequenceStart` unless wrap is
    /// enabled, in which case the cursor jumps to the bound and steps back
    /// once on the same call, landing on the last position.
    pub fn prev_asc_commit(&mut self) -> (r: Result<Commit, GitError>)
        requires
            old(self).wf(),
        ensures
            final(self).wf(),
            final(self).commits == old(self).commits,
            final(self).diffs == old(self).diffs,
            final(self).range == old(self).range,
            final(self).loop_enabled == old(self).loop_enabled,
            r.is_ok() == backward_ok(
                old(self).commit_index as int,
                old(self).bound_spec(),
                old(self).loop_enabled,
            ),
            (r matches Ok(c) ==> {
                let ci = old(self).commit_of_pos(
                    backward_pos(old(self).commit_index as int, old(self).bound_spec()),
                );
                &&& c@ == old(self).commits@[ci]@
                &&& final(self).commit_index == backward_next(
                    old(self).commit_index as int,
                    old(self).bound_spec(),
                    old(self).loop_enabled,
                )
                &&& final(self).displayed == Some(ci as usize)
            }),
            (r matches Err(e) ==> e == GitError::AtSequenceStart && *final(self) == *old(self)),
    {
        let b = self.bound();
        if self.commit_index > 0 {
            self.commit_index = self.commit_index - 1;
            let ci = self.resolve_pos(self.commit_index);
            let c = self.commits[ci].clone();
            self.displayed = Some(ci);
            Ok(c)
        } else if self.loop_enabled && b > 0 {
            self.commit_index = b;
            self.commit_index = self.commit_index - 1;
            let ci = self.resolve_pos(self.commit_index);
            let c = self.commits[ci].clone();
            self.displayed = Some(ci);
            Ok(c)
        } else {
            Err(GitError::AtSequenceStart)
        }
    }

    /// As `next_asc_commit`, but walking the active sequence in reverse
    /// commit order (most recent first): cursor position `p` resolves to
    /// position `bound - 1 - p` of the sequence.
    pub fn next_desc_commit(&mut self) -> (r: Result<Commit, GitError>)
        requires
            old(self).wf(),
        ensures
            final(self).wf(),
            final(self).commits == old(self).commits,
            final(self).diffs == old(self).diffs,
            final(self).range == old(self).range,
            final(self).loop_enabled == old(self).loop_enabled,
            r.is_ok() == forward_ok(
                old(self).commit_index as int,
                old(self).bound_spec(),
                old(self).loop_enabled,
            ),
            (r matches Ok(c) ==> {
                let ci = old(self).commit_of_pos(
                    old(self).bound_spec() - 1 - forward_pos(
                        old(self).commit_index as int,
                        old(self).bound_spec(),
                    ),
                );
                &&& c@ == old(self).commits@[ci]@
                &&& final(self).commit_index == forward_next(
                    old(self).commit_index as int,
                    old(self).bound_spec(),
                    old(self).loop_enabled,
                )
                &&& final(self).displayed == Some(ci as usize)
            }),
            (r matches Err(e) ==> e == GitError::AtSequenceEnd && *final(self) == *old(self)),
    {
        let b = self.bound();
        if self.commit_index < b {
            let ci = self.resolve_pos(b - 1 - self.commit_index);
            let c = self.commits[ci].clone();
            self.commit_index = self.commit_index + 1;
            self.displayed = Some(ci);
            Ok(c)
        } else if self.loop_enabled && b > 0 {
            self.commit_index = 0;
            let ci = self.resolve_pos(b - 1);
            let c = self.commits[ci].clone();
            self.commit_index = 1;
            self.displayed = Some(ci);
            Ok(c)
        } else {
            Err(GitError::AtSequenceEnd)
        }
    }

    /// As `prev_asc_commit`, but walking the active sequence in reverse
    /// commit order (most recent first).
    pub fn prev_desc_commit(&mut self) -> (r: Result<Commit, GitError>)
        requires
            old(self).wf(),
        ensures
            final(self).wf(),
            final(self).commits == old(self).commits,
            final(self).diffs == old(self).diffs,
            final(self).range == old(self).range,
            final(self).loop_enabled == old(self).loop_enabled,
            r.is_ok() == backward_ok(
                old(self).commit_index as int,
                old(self).bound_spec(),
                old(self).loop_enabled,
            ),
            (r matches Ok(c) ==> {
                let ci = old(self).commit_of_pos(
                    old(self).bound_spec() - 1 - backward_pos(
                        old(self).commit_index as int,
                        old(self).bound_spec(),
                    ),
                );
                &&& c@ == old(self).commits@[ci]@
                &&& final(self).commit_index == backward_next(
                    old(self).commit_index as int,
                    old(self).bound_spec(),
                    old(self).loop_enabled,
                )
                &&& final(self).displayed == Some(ci as usize)
            }),
            (r matches Err(e) ==> e == GitError::AtSequenceStart && *final(self) == *old(self)),
    {
        let b = self.bound();
        if self.commit_index > 0 {
            self.commit_index = self.commit_index - 1;
            let ci = self.resolve_pos(b - 1 - self.commit_index);
            let c = self.commits[ci].clone();
            self.displayed = Some(ci);
            Ok(c)
        } else if self.loop_enabled && b > 0 {
            self.commit_index = b;
            self.commit_index = self.commit_index - 1;
            let ci = self.resolve_pos(b - 1 - self.commit_index);
            let c = self.commits[ci].clone();
            self.displayed = Some(ci);
            Ok(c)
        } else {
            Err(GitError::AtSequenceStart)
        }
    }

    /// Installs the range filter that `expr` describes, or reports why it
    /// cannot be installed. Supported forms: a revision range
    /// `HEAD~N..HEAD` / `HEAD~N..HEAD~M`, an author filter `author:NAME`,
    /// and a date filter `since:SECONDS`.
    ///
    /// Success resets the cursor to the front of the new subsequence;
    /// a failure leaves the previously active filter and the cursor
    /// untouched.
    pub fn set_commit_range(&mut self, expr: &str) -> (r: Result<(), GitError>)
        requires
            old(self).wf(),
        ensures
            final(self).wf(),
            r.is_ok() == spec_resolve_filter(old(self).commits@, expr@) is Ok,
            (r is Ok ==> {
                &&& final(self).range is Some
                &&& Ok::<Seq<usize>, GitError>(final(self).range->0@) == spec_resolve_filter(
                    old(self).commits@,
                    expr@,
                )
                &&& final(self).commit_index == 0
                &&& final(self).commits == old(self).commits
                &&& final(self).diffs == old(self).diffs
                &&& final(self).loop_enabled == old(self).loop_enabled
                &&& final(self).displayed == old(self).displayed
            }),
            (r matches Err(e) ==> Err::<Seq<usize>, GitError>(e) == spec_resolve_filter(
                old(self).commits@,
                expr@,
            ) && *final(self) == *old(self)),
    {
        proof {
            reveal_strlit("HEAD~");
            reveal_strlit("..HEAD");
            reveal_strlit("..HEAD~");
            reveal_strlit("author:");
            reveal_strlit("since:");
            assert("HEAD~"@ =~= seq!['H', 'E', 'A', 'D', '~']);
            assert("..HEAD"@ =~= seq!['.', '.', 'H', 'E', 'A', 'D']);
            assert("..HEAD~"@ =~= seq!['.', '.', 'H', 'E', 'A', 'D', '~']);
            assert("author:"@ =~= seq!['a', 'u', 't', 'h', 'o', 'r', ':']);
            assert("since:"@ =~= seq!['s', 'i', 'n', 'c', 'e', ':']);
        }
        let n = expr.unicode_len();
        let c = self.commits.len();
        if has_prefix_at(expr, 0, "HEAD~") {
            proof {
                assert(expr@.subrange(0, 5) == seq!['H', 'E', 'A', 'D', '~']);
                assert(parse_author_spec(expr@) is None) by {
                    if expr@.len() >= 8 {
                        assert(expr@.subrange(0, 7)[0] == expr@.subrange(0, 5)[0]);
                    }
                }
                assert(parse_since_spec(expr@) is None) by {
                    if expr@.len() > 6 {
                        assert(expr@.subrange(0, 6)[0] == expr@.subrange(0, 5)[0]);
                    }
                }
            }
            let j = find_digit_run_end(expr, 5);
            if j == 5 {
                return Err(GitError::InvalidRangeSpec);
            }
            proof {
                lemma_digit_run_end(expr@, 5);
            }
            let a_parsed = parse_decimal(expr, 5, j);
            // the part after the digit run must be exactly `..HEAD`, or
            // `..HEAD~` followed by digits to the end
            let second: Option<(usize, usize)> = if has_prefix_at(expr, j, "..HEAD") && j + 6 == n {
                None
            } else if has_prefix_at(expr, j, "..HEAD~") {
                let j2 = find_digit_run_end(expr, j + 7);
                if j2 == n && n > j + 7 {
                    Some((j + 7, n))
                } else {
                    proof {
                        lemma_digit_run_end(expr@, j + 7);
                        if j2 != n {
                            assert(expr@.subrange(j as int, expr@.len() as int) != seq!['.', '.', 'H', 'E', 'A', 'D']);
                        }
                    }
                    return Err(GitError::InvalidRangeSpec);
                }
            } else {
                proof {
                    if expr@.subrange(j as int, expr@.len() as int) == seq!['.', '.', 'H', 'E', 'A', 'D'] {
                        assert(j + 6 == expr@.len());
                        assert(expr@.subrange(j as int, j + 6) =~= expr@.subrange(
                            j as int,
                            expr@.len() as int,
                        ));
                    }
                }
                return Err(GitError::InvalidRangeSpec);
            };
            let b_parsed: Option<u64> = match second {
                Some(seg) => {
                    proof {
                        lemma_digit_run_end(expr@, j + 7);
                    }
                    parse_decimal(expr, seg.0, seg.1)
                },
                None => Some(0u64),
            };
            proof {
                if second is Some {
                    assert(expr@.subrange(j as int, expr@.len() as int) != seq!['.', '.', 'H', 'E', 'A', 'D']);
                    assert(expr@.subrange(j as int, j + 7) =~= "..HEAD~"@);
                } else {
                    assert(expr@.subrange(j as int, expr@.len() as int) =~= "..HEAD"@);
                }
            }
            let ga = Ghost((parse_range_spec(expr@)->0).0);
            let gb = Ghost((parse_range_spec(expr@)->0).1);
            match (a_parsed, b_parsed) {
                (Some(a), Some(b)) => {
                    if c == 0 || a > (c - 1) as u64 || b > (c - 1) as u64 {
                        Err(GitError::InvalidRangeSpec)
                    } else if b >= a {
                        Err(GitError::EmptyRange)
                    } else {
                        let start: usize = c - (a as usize);
                        let count: usize = (a - b) as usize;
                        let mut rr: Vec<usize> = Vec::new();
                        let mut k: usize = 0;
                        while k < count
                            invariant
                                0 <= k <= count,
                                start + count <= c,
                                rr@.len() == k,
                                forall|i: int| 0 <= i < k ==> rr@[i] == start + i,
                            decreases count - k,
                        {
                            rr.push(start + k);
                            k = k + 1;
                        }
                        proof {
                            assert(rr@ =~= Seq::new((ga@ - gb@) as nat, |k: int| (self.commits@.len() - ga@ + k) as usize));
                        }
                        self.range = Some(rr);
                        self.commit_index = 0;
                        Ok(())
                    }
                },
                _ => {
                    // an offset of twenty digits does not name a commit
                    Err(GitError::InvalidRangeSpec)
                },
            }
        } else if has_prefix_at(expr, 0, "author:") && n >= 8 {
            proof {
                assert(parse_range_spec(expr@) is None) by {
                    if expr@.len() >= 5 {
                        assert(expr@.subrange(0, 5)[0] == expr@.subrange(0, 7)[0]);
                    }
                }
                assert(parse_since_spec(expr@) is None) by {
                    if expr@.len() > 6 {
                        assert(expr@.subrange(0, 6)[0] == expr@.subrange(0, 7)[0]);
                    }
                }
            }
            let name: String = expr.substring_char(7, n).to_owned();
            let mut rr: Vec<usize> = Vec::new();
            let mut k: usize = 0;
            while k < c
                invariant
                    0 <= k <= c,
                    c == self.commits@.len(),
                    name@ == parse_author_spec(expr@)->0,
                    rr@ == author_indices(self.commits@, name@, k as int),
                decreases c - k,
            {
                if self.commits[k].author.eq(&name) {
                    rr.push(k);
                }
                k = k + 1;
            }
            if rr.len() == 0 {
                Err(GitError::EmptyRange)
            } else {
                proof {
                    lemma_matching_indices_wf(
                        self.commits@,
                        |cm: Commit| cm.author@ == name@,
                        c as int,
                    );
                }
                self.range = Some(rr);
                self.commit_index = 0;
                Ok(())
            }
        } else if has_prefix_at(expr, 0, "since:") {
            proof {
                assert(parse_range_spec(expr@) is None) by {
                    if expr@.len() >= 5 {
                        assert(expr@.subrange(0, 5)[0] == expr@.subrange(0, 6)[0]);
                    }
                }
                assert(parse_author_spec(expr@) is None) by {
                    if expr@.len() >= 8 {
                        assert(expr@.subrange(0, 7)[1] == expr@.subrange(0, 6)[1]);
                    }
                }
            }
            let j = find_digit_run_end(expr, 6);
            if !(j == n && n > 6) {
                proof {
                    lemma_digit_run_end(expr@, 6);
                }
                return Err(GitError::InvalidRangeSpec);
            }
            proof {
                lemma_digit_run_end(expr@, 6);
            }
            let t_parsed = parse_decimal(expr, 6, n);
            let gt = Ghost(parse_since_spec(expr@)->0);
            let mut rr: Vec<usize> = Vec::new();
            let mut k: usize = 0;
            while k < c
                invariant
                    0 <= k <= c,
                    c == self.commits@.len(),
                    gt@ == parse_since_spec(expr@)->0,
                    (t_parsed matches Some(v) ==> v as int == gt@),
                    t_parsed is None ==> gt@ > u64::MAX,
                    rr@ == since_indices(self.commits@, gt@, k as int),
                decreases c - k,
            {
                let keep = match t_parsed {
                    Some(v) => self.commits[k].timestamp >= v,
                    None => false,
                };
                if keep {
                    rr.push(k);
                }
                k = k + 1;
            }
            if rr.len() == 0 {
                Err(GitError::EmptyRange)
            } else {
                proof {
                    lemma_matching_indices_wf(
                        self.commits@,
                        |cm: Commit| cm.timestamp as int >= gt@,
                        c as int,
                    );
                }
                self.range = Some(rr);
                self.commit_index = 0;
                Ok(())
            }
        } else {
            proof {
                if expr@.len() >= 5 && expr@.subrange(0, 5) == seq!['H', 'E', 'A', 'D', '~'] {
                    assert(expr@.subrange(0, 5) == "HEAD~"@);
                }
                if expr@.len() >= 8 && expr@.subrange(0, 7) == seq!['a', 'u', 't', 'h', 'o', 'r', ':'] {
                    assert(expr@.subrange(0, 7) == "author:"@);
                }
                if expr@.len() > 6 && expr@.subrange(0, 6) == seq!['s', 'i', 'n', 'c', 'e', ':'] {
                    assert(expr@.subrange(0, 6) == "since:"@);
                }
            }
            Err(GitError::InvalidRangeSpec)
        }
    }

    /// Range-scoped forward step, oldest first. Without an active filter
    /// the filtered sequence is empty, so the step fails at once with
    /// `AtSequenceEnd` and the cursor is untouched.
    pub fn next_range_commit_asc(&mut self) -> (r: Result<Commit, GitError>)
        requires
            old(self).wf(),
        ensures
            final(self).wf(),
            old(self).range is None ==> r == Err::<Commit, GitError>(GitError::AtSequenceEnd)
                && *final(self) == *old(self),
            old(self).range is Some ==> {
                &&& final(self).commits == old(self).commits
                &&& final(self).diffs == old(self).diffs
                &&& final(self).range == old(self).range
                &&& final(self).loop_enabled == old(self).loop_enabled
                &&& r.is_ok() == forward_ok(
                    old(self).commit_index as int,
                    old(self).bound_spec(),
                    old(self).loop_enabled,
                )
                &&& (r matches Ok(c) ==> {
                    let ci = old(self).commit_of_pos(
                        forward_pos(old(self).commit_index as int, old(self).bound_spec()),
                    );
                    &&& c@ == old(self).commits@[ci]@
                    &&& final(self).commit_index == forward_next(
                        old(self).commit_index as int,
                        old(self).bound_spec(),
                        old(self).loop_enabled,
                    )
                    &&& final(self).displayed == Some(ci as usize)
                })
                &&& (r matches Err(e) ==> e == GitError::AtSequenceEnd
                    && *final(self) == *old(self))
            },
    {
        if self.range.is_none() {
            return Err(GitError::AtSequenceEnd);
        }
        self.next_asc_commit()
    }

    /// Under an active filter, every position a navigation step can
    /// visit resolves to one of the filter's own commit indices: range
    /// navigation never leaves the filtered subsequence.
    pub proof fn lemma_navigation_stays_in_range(self, p: int)
        requires
            self.wf(),
            self.range is Some,
            0 <= p < self.bound_spec(),
        ensures
            self.range->0@.contains(self.commit_of_pos(p) as usize),
    {
        assert(self.range->0@[p] == self.commit_of_pos(p) as usize);
    }

    /// Range-scoped backward step, oldest first. Without an active filter
    /// the step fails at once with `AtSequenceStart`.
    pub fn prev_range_commit_asc(&mut self) -> (r: Result<Commit, GitError>)
        requires
            old(self).wf(),
        ensures
            final(self).wf(),
            old(self).range is None ==> r == Err::<Commit, GitError>(GitError::AtSequenceStart)
                && *final(self) == *old(self),
            old(self).range is Some ==> {
                &&& final(self).commits == old(self).commits
                &&& final(self).diffs == old(self).diffs
                &&& final(self).range == old(self).range
                &&& final(self).loop_enabled == old(self).loop_enabled
                &&& r.is_ok() == backward_ok(
                    old(self).commit_index as int,
                    old(self).bound_spec(),
                    old(self).loop_enabled,
                )
                &&& (r matches Ok(c) ==> {
                    let ci = old(self).commit_of_pos(
                        backward_pos(old(self).commit_index as int, old(self).bound_spec()),
                    );
                    &&& c@ == old(self).commits@[ci]@
                    &&& final(self).commit_index == backward_next(
                        old(self).commit_index as int,
                        old(self).bound_spec(),
                        old(self).loop_enabled,
                    )
                    &&& final(self).displayed == Some(ci as usize)
                })
                &&& (r matches Err(e) ==> e == GitError::AtSequenceStart
                    && *final(self) == *old(self))
            },
    {
        if self.range.is_none() {
            return Err(GitError::AtSequenceStart);
        }
        self.prev_asc_commit()
    }
}

} // verus!
