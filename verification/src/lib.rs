//! Replays a repository's history as an animated terminal sequence: commits
//! are visited in a configurable order, and each commit's diff is turned into
//! an ordered stream of incremental reveal frames.
//!
//! The `git` module holds the commit store, the navigation cursor and the
//! range filter; `playback` the playback-order policy with its per-cycle
//! permutation; `animation` the engine that turns a diff into frames and
//! ticks through them; `theme` the built-in style tables. Repository I/O and
//! rendering live outside the library, which works on plain values only.

use vstd::prelude::*;

pub mod animation;
pub mod git;
pub mod playback;
pub mod theme;

verus! {

/// Defines the order in which commits are played back during animation.
#[derive(Debug, Clone, Copy, PartialEq, Eq, Structural)]
pub enum PlaybackOrder {
    Random,
    Asc,
    Desc,
}

} // verus!
