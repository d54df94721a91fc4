//! Animation engine: turns a commit's diff into a deterministic,
//! time-ordered list of reveal frames and advances a cursor through it
//! on each external tick. Navigation interrupts by resetting; an
//! in-progress animation is always abandoned, never resumed.

use vstd::prelude::*;
use vstd::string::StrSliceExecFns;
use crate::git::{DiffHunk, DiffLine, DiffLineKind};

verus! {

/// How much of a line one frame reveals: one character at a time (the
/// typing effect), or the whole line at once.
#[derive(Debug, Clone, Copy, PartialEq, Eq, Structural)]
pub enum RevealGranularity {
    Character,
    Line,
}

/// Whether a frame shows a removed line in its brief removing state, or
/// reveals part of an added line.
#[derive(Debug, Clone, Copy, PartialEq, Eq, Structural)]
pub enum FrameKind {
    Removing,
    Revealing,
}

/// One discrete render state of playback: which hunk (and so which
/// file), which line of it, and how many of the line's characters are
/// visible.
#[derive(Debug, Clone, Copy, PartialEq, Eq, Structural)]
pub struct AnimationFrame {
    pub hunk: usize,
    pub line: usize,
    pub kind: FrameKind,
    pub visible: usize,
}

/// The reveal frames of one added line: character granularity shows one
/// more character per frame, left to right; line granularity the whole
/// line in one frame. An empty added line still takes one frame.
pub open spec fn added_line_frames(h: int, l: int, len: int, g: RevealGranularity) -> Seq<
    AnimationFrame,
> {
    if g is Line || len == 0 {
        seq![
            AnimationFrame {
                hunk: h as usize,
                line: l as usize,
                kind: FrameKind::Revealing,
                visible: len as usize,
            },
        ]
    } else {
        Seq::new(
            len as nat,
            |k: int|
                AnimationFrame {
                    hunk: h as usize,
                    line: l as usize,
                    kind: FrameKind::Revealing,
                    visible: (k + 1) as usize,
                },
        )
    }
}

/// The single removing frame of one removed line.
pub open spec fn removed_line_frame(h: int, l: int, len: int) -> AnimationFrame {
    AnimationFrame { hunk: h as usize, line: l as usize, kind: FrameKind::Removing, visible: len as usize }
}

/// The removing frames of the first `n` lines of a hunk, in line order.
pub open spec fn removal_frames_upto(h: int, lines: Seq<DiffLine>, n: int) -> Seq<AnimationFrame>
    decreases n,
{
    if n <= 0 {
        seq![]
    } else {
        removal_frames_upto(h, lines, n - 1) + (if lines[n - 1].kind is Removed {
            seq![removed_line_frame(h, n - 1, lines[n - 1].content@.len() as int)]
        } else {
            seq![]
        })
    }
}

/// The reveal frames of the first `n` lines of a hunk, in line order,
/// top to bottom.
pub open spec fn addition_frames_upto(
    h: int,
    lines: Seq<DiffLine>,
    n: int,
    g: RevealGranularity,
) -> Seq<AnimationFrame>
    decreases n,
{
    if n <= 0 {
        seq![]
    } else {
        addition_frames_upto(h, lines, n - 1, g) + (if lines[n - 1].kind is Added {
            added_line_frames(h, n - 1, lines[n - 1].content@.len() as int, g)
        } else {
            seq![]
        })
    }
}

/// The frames of one hunk: all its removing frames first, then its
/// reveal frames — removals interleave before additions, hunk by hunk.
/// Unchanged lines take no frame.
pub open spec fn hunk_frames(h: int, hk: DiffHunk, g: RevealGranularity) -> Seq<AnimationFrame> {
    removal_frames_upto(h, hk.lines@, hk.lines@.len() as int) + addition_frames_upto(
        h,
        hk.lines@,
        hk.lines@.len() as int,
        g,
    )
}

/// The frames of the first `n` hunks of a diff, in file-list order.
pub open spec fn diff_frames_upto(hunks: Seq<DiffHunk>, g: RevealGranularity, n: int) -> Seq<
    AnimationFrame,
>
    decreases n,
{
    if n <= 0 {
        seq![]
    } else {
        diff_frames_upto(hunks, g, n - 1) + hunk_frames(n - 1, hunks[n - 1], g)
    }
}

/// The full, ordered frame list of a diff: one file at a time in
/// file-list order; within a file, lines top to bottom; within a line,
/// characters left to right.
pub open spec fn diff_frames(hunks: Seq<DiffHunk>, g: RevealGranularity) -> Seq<AnimationFrame> {
    diff_frames_upto(hunks, g, hunks.len() as int)
}

/// Builds the frame list of a diff. Frame generation is a pure function
/// of the diff: the list is finite, indexable and restartable, and
/// timing is driven externally by whoever ticks the engine.
fn build_frames(hunks: &Vec<DiffHunk>, g: RevealGranularity) -> (v: Vec<AnimationFrame>)
    ensures
        v@ == diff_frames(hunks@, g),
{
    let mut v: Vec<AnimationFrame> = Vec::new();
    let mut h: usize = 0;
    while h < hunks.len()
        invariant
            0 <= h <= hunks@.len(),
            v@ == diff_frames_upto(hunks@, g, h as int),
        decreases hunks@.len() - h,
    {
        let ghost hunk_base = v@;
        let hk = &hunks[h];
        let mut l: usize = 0;
        while l < hk.lines.len()
            invariant
                0 <= l <= hk.lines@.len(),
                h < hunks@.len(),
                *hk == hunks@[h as int],
                v@ == hunk_base + removal_frames_upto(h as int, hk.lines@, l as int),
            decreases hk.lines@.len() - l,
        {
            let ln = &hk.lines[l];
            match ln.kind {
                DiffLineKind::Removed => {
                    let len = ln.content.as_str().unicode_len();
                    v.push(
                        AnimationFrame {
                            hunk: h,
                            line: l,
                            kind: FrameKind::Removing,
                            visible: len,
                        },
                    );
                    proof {
                        assert(v@ =~= hunk_base + removal_frames_upto(
                            h as int,
                            hk.lines@,
                            l + 1,
                        ));
                    }
                },
                _ => {
                    proof {
                        assert(v@ =~= hunk_base + removal_frames_upto(
                            h as int,
                            hk.lines@,
                            l + 1,
                        ));
                    }
                },
            }
            l = l + 1;
        }
        let ghost add_base = v@;
        let mut l: usize = 0;
        while l < hk.lines.len()
            invariant
                0 <= l <= hk.lines@.len(),
                h < hunks@.len(),
                *hk == hunks@[h as int],
                add_base == hunk_base + removal_frames_upto(
                    h as int,
                    hk.lines@,
                    hk.lines@.len() as int,
                ),
                v@ == add_base + addition_frames_upto(h as int, hk.lines@, l as int, g),
            decreases hk.lines@.len() - l,
        {
            let ln = &hk.lines[l];
            match ln.kind {
                DiffLineKind::Added => {
                    let len = ln.content.as_str().unicode_len();
                    let line_at_once = match g {
                        RevealGranularity::Line => true,
                        RevealGranularity::Character => false,
                    };
                    if line_at_once || len == 0 {
                        v.push(
                            AnimationFrame {
                                hunk: h,
                                line: l,
                                kind: FrameKind::Revealing,
                                visible: len,
                            },
                        );
                        proof {
                            assert(v@ =~= add_base + addition_frames_upto(
                                h as int,
                                hk.lines@,
                                l + 1,
                                g,
                            ));
                        }
                    } else {
                        let ghost line_base = v@;
                        let mut k: usize = 0;
                        while k < len
                            invariant
                                0 <= k <= len,
                                len == hk.lines@[l as int].content@.len(),
                                l < hk.lines@.len(),
                                g is Character,
                                v@ == line_base + Seq::new(
                                    k as nat,
                                    |t: int|
                                        AnimationFrame {
                                            hunk: h,
                                            line: l,
                                            kind: FrameKind::Revealing,
                                            visible: (t + 1) as usize,
                                        },
                                ),
                            decreases len - k,
                        {
                            v.push(
                                AnimationFrame {
                                    hunk: h,
                                    line: l,
                                    kind: FrameKind::Revealing,
                                    visible: k + 1,
                                },
                            );
                            proof {
                                assert(v@ =~= line_base + Seq::new(
                                    (k + 1) as nat,
                                    |t: int|
                                        AnimationFrame {
                                            hunk: h,
                                            line: l,
                                            kind: FrameKind::Revealing,
                                            visible: (t + 1) as usize,
                                        },
                                ));
                            }
                            k = k + 1;
                        }
                        proof {
                            assert(added_line_frames(
                                h as int,
                                l as int,
                                len as int,
                                g,
                            ) =~= Seq::new(
                                len as nat,
                                |t: int|
                                    AnimationFrame {
                                        hunk: h,
                                        line: l,
                                        kind: FrameKind::Revealing,
                                        visible: (t + 1) as usize,
                                    },
                            ));
                            assert(v@ =~= add_base + addition_frames_upto(
                                h as int,
                                hk.lines@,
                                l + 1,
                                g,
                            ));
                        }
                    }
                },
                _ => {
                    proof {
                        assert(v@ =~= add_base + addition_frames_upto(
                            h as int,
                            hk.lines@,
                            l + 1,
                            g,
                        ));
                    }
                },
            }
            l = l + 1;
        }
        proof {
            assert(v@ =~= diff_frames_upto(hunks@, g, h + 1));
        }
        h = h + 1;
    }
    v
}

/// The three engine states: nothing loaded, playing at a frame cursor,
/// or played to the end.
#[derive(Debug, Clone, Copy, PartialEq, Eq, Structural)]
pub enum EngineState {
    Idle,
    Playing,
    Finished,
}

/// The animation engine. It holds at most one active playback session:
/// starting a new one always fully discards the previous session's
/// frame cursor.
#[derive(Debug)]
pub struct AnimationEngine {
    pub state: EngineState,
    pub frames: Vec<AnimationFrame>,
    pub cursor: usize,
}

impl AnimationEngine {
    /// While playing, the cursor points at a real frame — except over an
    /// empty frame list, where it rests at 0 until the first tick ends
    /// playback.
    pub open spec fn wf(&self) -> bool {
        self.state is Playing ==> (self.cursor < self.frames@.len() || (self.cursor == 0
            && self.frames@.len() == 0))
    }

    /// A fresh, idle engine.
    pub fn new() -> (r: Self)
        ensures
            r.wf(),
            r.state is Idle,
            r.frames@.len() == 0,
            r.cursor == 0,
    {
        AnimationEngine { state: EngineState::Idle, frames: Vec::new(), cursor: 0 }
    }

    /// Builds the frame list of `hunks` and begins playing it at frame
    /// 0 — whatever was loaded or playing before is fully discarded, so
    /// a fresh start never carries a prior cursor over.
    pub fn start(&mut self, hunks: &Vec<DiffHunk>, g: RevealGranularity)
        ensures
            final(self).wf(),
            final(self).state is Playing,
            final(self).cursor == 0,
            final(self).frames@ == diff_frames(hunks@, g),
    {
        self.frames = build_frames(hunks, g);
        self.cursor = 0;
        self.state = EngineState::Playing;
    }

    /// One external tick. While playing it advances to the next frame,
    /// or to `Finished` when the list is exhausted; it is non-blocking
    /// and uses only the already-built list. Idle and finished engines
    /// are left as they are.
    pub fn tick(&mut self)
        requires
            old(self).wf(),
        ensures
            final(self).wf(),
            final(self).frames == old(self).frames,
            old(self).state is Playing && old(self).cursor + 1 < old(self).frames@.len() ==> {
                &&& final(self).state is Playing
                &&& final(self).cursor == old(self).cursor + 1
            },
            old(self).state is Playing && old(self).cursor + 1 >= old(self).frames@.len() ==> {
                &&& final(self).state is Finished
                &&& final(self).cursor == old(self).cursor
            },
            !(old(self).state is Playing) ==> *final(self) == *old(self),
    {
        match self.state {
            EngineState::Playing => {
                let len = self.frames.len();
                if len > 0 && self.cursor < len - 1 {
                    self.cursor = self.cursor + 1;
                } else {
                    self.state = EngineState::Finished;
                }
            },
            _ => {},
        }
    }

    /// The frame to render now: the one under the cursor while playing,
    /// nothing when idle (render the empty state) or finished (render
    /// the fully applied state).
    pub fn current_frame(&self) -> (r: Option<AnimationFrame>)
        requires
            self.wf(),
        ensures
            r is Some == (self.state is Playing && self.cursor < self.frames@.len()),
            (r matches Some(f) ==> f == self.frames@[self.cursor as int]),
    {
        match self.state {
            EngineState::Playing => {
                if self.cursor < self.frames.len() {
                    Some(self.frames[self.cursor])
                } else {
                    None
                }
            },
            _ => None,
        }
    }

    /// Interruption: forces the engine back to idle and discards the
    /// frame list, whatever state it was in. Navigation calls this
    /// whenever the target commit changes.
    pub fn reset(&mut self)
        ensures
            final(self).wf(),
            final(self).state is Idle,
            final(self).frames@.len() == 0,
            final(self).cursor == 0,
    {
        self.state = EngineState::Idle;
        self.frames = Vec::new();
        self.cursor = 0;
    }
}

} // verus!
