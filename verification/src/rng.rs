//! The injected uniform-random-integer capability used for reward
//! placement, and two deterministic implementations of it.
//!
//! The engine never touches an entropy source itself: whoever embeds it
//! chooses an implementation, so the simulation stays deterministic and
//! testable with a fixed or seeded draw sequence.

use vstd::prelude::*;

verus! {

use vstd::arithmetic::div_mod::lemma_mod_bound;

/// The engine's only external capability: a source of uniform random
/// integers.  `draw_uniform(bound)` hands back some integer in
/// `[0, bound)`; nothing more is promised, so everything proved about the
/// engine holds for every implementation and every value drawn.
pub trait RandomSource {
    fn draw_uniform(&mut self, bound: usize) -> (r: usize)
        requires
            1 <= bound,
        ensures
            r < bound,
    ;
}

/// A seeded xorshift pseudo-random source.
pub struct XorShiftSource {
    pub state: u64,
}

impl XorShiftSource {
    /// Builds a source from a seed; a zero seed is replaced, since the
    /// xorshift step maps a zero state to itself.
    pub fn new(seed: u64) -> (r: XorShiftSource)
        ensures
            seed != 0 ==> r.state == seed,
    {
        if seed == 0 {
            XorShiftSource { state: 0x9E37_79B9_7F4A_7C15 }
        } else {
            XorShiftSource { state: seed }
        }
    }
}

impl RandomSource for XorShiftSource {
    fn draw_uniform(&mut self, bound: usize) -> (r: usize) {
        let s0 = self.state;
        let s1 = s0 ^ (s0 << 13u64);
        let s2 = s1 ^ (s1 >> 7u64);
        let s3 = s2 ^ (s2 << 17u64);
        self.state = s3;
        let m = s3 % (bound as u64);
        proof {
            lemma_mod_bound(s3 as int, bound as int);
        }
        m as usize
    }
}

/// A source that replays a fixed script of draws, cycling once it runs
/// out; each scripted value is reduced modulo the requested bound.  An
/// empty script always draws zero.
pub struct ScriptedSource {
    pub values: Vec<usize>,
    pub index: usize,
}

impl ScriptedSource {
    /// Builds a source that will replay `values` from the start.
    pub fn new(values: Vec<usize>) -> (r: ScriptedSource)
        ensures
            r.values@ == values@,
            r.index == 0,
    {
        ScriptedSource { values, index: 0 }
    }
}

impl RandomSource for ScriptedSource {
    fn draw_uniform(&mut self, bound: usize) -> (r: usize) {
        if self.index >= self.values.len() {
            self.index = 0;
        }
        if self.index < self.values.len() {
            let v = self.values[self.index];
            self.index = self.index + 1;
            proof {
                lemma_mod_bound(v as int, bound as int);
            }
            v % bound
        } else {
            0
        }
    }
}

} // verus!
