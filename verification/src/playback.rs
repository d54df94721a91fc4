//! Playback-order policy: the random order draws a fresh permutation of
//! the positions for each cycle, so that every commit is visited exactly
//! once per cycle; ascending and descending order delegate to the
//! navigation cursor and need no state here.

use vstd::prelude::*;
use vstd::seq_lib::*;
use crate::PlaybackOrder;

verus! {

/// A sequence that holds each position below `n` exactly once: `n`
/// entries, each a position below `n`, no entry twice, every position
/// present.
pub open spec fn is_permutation(s: Seq<usize>, n: int) -> bool {
    &&& s.len() == n
    &&& s.no_duplicates()
    &&& forall|k: int| 0 <= k < s.len() ==> s[k] < n
    &&& forall|v: int| 0 <= v < n ==> s.contains(#[trigger] (v as usize))
}

/// One step of the linear congruential generator that drives the
/// shuffle (Knuth's MMIX multiplier).
pub open spec fn lcg_spec(state: u64) -> u64 {
    ((state * 6364136223846793005 + 1442695040888963407) % 0x10000000000000000) as u64
}

fn lcg_next(state: u64) -> (r: u64)
    ensures
        r == lcg_spec(state),
{
    state.wrapping_mul(6364136223846793005).wrapping_add(1442695040888963407)
}

proof fn lemma_identity_is_permutation(n: int)
    requires
        0 <= n <= usize::MAX,
    ensures
        is_permutation(Seq::new(n as nat, |k: int| k as usize), n),
{
    let s = Seq::new(n as nat, |k: int| k as usize);
    assert forall|v: int| 0 <= v < n implies s.contains(#[trigger] (v as usize)) by {
        assert(s[v] == v as usize);
    }
}

proof fn lemma_swap_preserves_permutation(s: Seq<usize>, n: int, i: int, j: int)
    requires
        is_permutation(s, n),
        0 <= i < s.len(),
        0 <= j < s.len(),
    ensures
        is_permutation(s.update(i, s[j]).update(j, s[i]), n),
{
    let s2 = s.update(i, s[j]).update(j, s[i]);
    assert forall|v: int| 0 <= v < n implies s2.contains(#[trigger] (v as usize)) by {
        let k = choose|k: int| 0 <= k < s.len() && s[k] == v as usize;
        if k == i {
            assert(s2[j] == v as usize);
        } else if k == j {
            assert(s2[i] == v as usize);
        } else {
            assert(s2[k] == v as usize);
        }
    }
    assert forall|p: int, q: int|
        0 <= p < s2.len() && 0 <= q < s2.len() && p != q implies s2[p] != s2[q] by {
        let p0 = if p == i { j } else if p == j { i } else { p };
        let q0 = if q == i { j } else if q == j { i } else { q };
        assert(s2[p] == s[p0]);
        assert(s2[q] == s[q0]);
    }
}

/// Draws a permutation of the positions below `bound`, shuffled from the
/// given seed. Equal seeds give equal permutations; the guarantee is
/// only that the result is a permutation, whatever the seed.
pub fn shuffled_positions(bound: usize, seed: u64) -> (v: Vec<usize>)
    ensures
        is_permutation(v@, bound as int),
{
    let mut v: Vec<usize> = Vec::new();
    let mut k: usize = 0;
    while k < bound
        invariant
            0 <= k <= bound,
            v@.len() == k,
            forall|i: int| 0 <= i < k ==> v@[i] == i,
        decreases bound - k,
    {
        v.push(k);
        k = k + 1;
    }
    proof {
        assert(v@ =~= Seq::new(bound as nat, |k: int| k as usize));
        lemma_identity_is_permutation(bound as int);
    }
    let mut st: u64 = seed;
    let mut i: usize = bound;
    while i > 1
        invariant
            i <= bound,
            v@.len() == bound,
            is_permutation(v@, bound as int),
        decreases i,
    {
        st = lcg_next(st);
        let j: usize = (st % (i as u64)) as usize;
        let ghost before = v@;
        let a = v[i - 1];
        let b = v[j];
        v[i - 1] = b;
        v[j] = a;
        proof {
            assert(v@ == before.update(i - 1, before[j as int]).update(j as int, before[i - 1]));
            lemma_swap_preserves_permutation(before, bound as int, i - 1, j as int);
        }
        i = i - 1;
    }
    v
}

/// The playback policy state: the active order and, for random order,
/// the permutation of the current cycle with the cursor into it.
/// `cycle_bound` is the sequence size the permutation was drawn for.
#[derive(Debug)]
pub struct PlaybackState {
    pub order: PlaybackOrder,
    pub cycle: Vec<usize>,
    pub pos: usize,
    pub cycle_bound: usize,
}

impl PlaybackState {
    /// The permutation matches its bound and the cursor sits within it.
    pub open spec fn wf(&self) -> bool {
        &&& is_permutation(self.cycle@, self.cycle_bound as int)
        &&& self.pos <= self.cycle@.len()
    }

    /// A policy with no cycle drawn yet.
    pub fn new(order: PlaybackOrder) -> (r: Self)
        ensures
            r.wf(),
            r.order == order,
            r.cycle@.len() == 0,
            r.pos == 0,
            r.cycle_bound == 0,
    {
        PlaybackState { order, cycle: Vec::new(), pos: 0, cycle_bound: 0 }
    }

    /// Switches the order, discarding any in-progress permutation state;
    /// the current commit is untouched (it lives in the cursor, not
    /// here).
    pub fn set_order(&mut self, order: PlaybackOrder)
        requires
            old(self).wf(),
        ensures
            final(self).wf(),
            final(self).order == order,
            final(self).cycle@.len() == 0,
            final(self).pos == 0,
            final(self).cycle_bound == 0,
    {
        self.order = order;
        self.cycle = Vec::new();
        self.pos = 0;
        self.cycle_bound = 0;
    }

    /// The next position of the random order over a sequence of size
    /// `bound`.
    ///
    /// A change of bound discards the cycle and draws a fresh
    /// permutation; within a cycle the next unused entry is handed out,
    /// so no position repeats; an exhausted cycle stops without loop, and
    /// with loop draws a fresh permutation (a new shuffle, not a replay)
    /// and starts it.
    pub fn next_random_index(&mut self, bound: usize, loop_enabled: bool, seed: u64) -> (r: Option<
        usize,
    >)
        requires
            old(self).wf(),
        ensures
            final(self).wf(),
            final(self).order == old(self).order,
            (r matches Some(p) ==> p < bound),
            r is Some == (bound > 0 && (bound != old(self).cycle_bound || old(self).pos
                < old(self).cycle@.len() || loop_enabled)),
            bound == 0 ==> *final(self) == *old(self),
            (bound > 0 && bound == old(self).cycle_bound && old(self).pos < old(self).cycle@.len())
                ==> {
                &&& r == Some(old(self).cycle@[old(self).pos as int])
                &&& final(self).cycle == old(self).cycle
                &&& final(self).cycle_bound == old(self).cycle_bound
                &&& final(self).pos == old(self).pos + 1
            },
            (bound > 0 && (bound != old(self).cycle_bound || old(self).pos
                >= old(self).cycle@.len()) && r is Some) ==> {
                &&& is_permutation(final(self).cycle@, bound as int)
                &&& final(self).cycle_bound == bound
                &&& r == Some(final(self).cycle@[0])
                &&& final(self).pos == 1
            },
            (bound > 0 && r is None) ==> *final(self) == *old(self),
    {
        if bound == 0 {
            return None;
        }
        if bound != self.cycle_bound {
            self.cycle = shuffled_positions(bound, seed);
            self.cycle_bound = bound;
            self.pos = 0;
            let p = self.cycle[0];
            self.pos = 1;
            return Some(p);
        }
        if self.pos < self.cycle.len() {
            let p = self.cycle[self.pos];
            self.pos = self.pos + 1;
            Some(p)
        } else if loop_enabled {
            self.cycle = shuffled_positions(bound, seed);
            self.pos = 1;
            let p = self.cycle[0];
            Some(p)
        } else {
            None
        }
    }
}

/// Over one full cycle the random order hands out exactly the entries of
/// the permutation it drew, in order: every position below the bound is
/// visited exactly once — no entry twice (no repeats) and every position
/// present (no omissions).
pub proof fn lemma_random_cycle_visits_each_once(s: PlaybackState)
    requires
        s.wf(),
    ensures
        s.cycle@.len() == s.cycle_bound,
        s.cycle@.no_duplicates(),
        forall|v: int| 0 <= v < s.cycle_bound ==> s.cycle@.contains(#[trigger] (v as usize)),
{
}

} // verus!
