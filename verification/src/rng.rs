//! Random draws as an injectable dependency: a trait of uniform draws over
//! inclusive ranges, one implementation backed by the process-wide
//! generator, and a scripted one for deterministic runs.

use vstd::prelude::*;
use rand::Rng;

verus! {

/// A source of uniform random draws. Every draw lands in the requested
/// inclusive range; nothing more is promised, so whatever the painter
/// guarantees holds for any source.
pub trait RandomSource {
    /// A draw from the inclusive range `[lo, hi]`.
    fn pick_u32(&mut self, lo: u32, hi: u32) -> (r: u32)
        requires
            lo <= hi,
        ensures
            lo <= r <= hi;

    /// A draw from the inclusive fixed-point range `[lo, hi]`.
    fn pick_i64(&mut self, lo: i64, hi: i64) -> (r: i64)
        requires
            lo <= hi,
        ensures
            lo <= r <= hi;
}

/// Relies on rand::thread_rng and rand::Rng::gen_range: a draw from a
/// nonempty inclusive range lands in that range.
#[verifier::external_body]
fn thread_rng_u32(lo: u32, hi: u32) -> (r: u32)
    requires
        lo <= hi,
    ensures
        lo <= r <= hi,
{
    rand::thread_rng().gen_range(lo..=hi)
}

/// Relies on rand::thread_rng and rand::Rng::gen_range: a draw from a
/// nonempty inclusive range lands in that range.
#[verifier::external_body]
fn thread_rng_i64(lo: i64, hi: i64) -> (r: i64)
    requires
        lo <= hi,
    ensures
        lo <= r <= hi,
{
    rand::thread_rng().gen_range(lo..=hi)
}

/// The process-wide random generator as a random source.
pub struct ThreadRandom {}

impl ThreadRandom {
    /// A fresh handle on the process-wide generator.
    pub fn new() -> ThreadRandom {
        ThreadRandom {  }
    }
}

impl RandomSource for ThreadRandom {
    fn pick_u32(&mut self, lo: u32, hi: u32) -> (r: u32) {
        thread_rng_u32(lo, hi)
    }

    fn pick_i64(&mut self, lo: i64, hi: i64) -> (r: i64) {
        thread_rng_i64(lo, hi)
    }
}

/// A scripted value forced into an inclusive range.
pub open spec fn clamp_to(v: int, lo: int, hi: int) -> int {
    if v < lo {
        lo
    } else if v > hi {
        hi
    } else {
        v
    }
}

/// A scripted random source: hands out its listed values in order, each
/// clamped into the requested range, and the range's low end once the list
/// is exhausted.
pub struct ScriptedRandom {
    values: Vec<i64>,
    next: usize,
}

impl ScriptedRandom {
    /// The scripted values not yet handed out, in order.
    pub closed spec fn pending(self) -> Seq<i64> {
        if self.next as int <= self.values@.len() {
            self.values@.skip(self.next as int)
        } else {
            Seq::empty()
        }
    }

    /// A source that will hand out `values` in order.
    pub fn new(values: Vec<i64>) -> (r: ScriptedRandom)
        ensures
            r.pending() == values@,
    {
        let r = ScriptedRandom { values, next: 0 };
        proof {
            assert(r.pending() =~= r.values@);
        }
        r
    }

    fn take(&mut self) -> (r: Option<i64>)
        ensures
            old(self).pending().len() == 0 ==> r is None
                && final(self).pending() == old(self).pending(),
            old(self).pending().len() > 0 ==> r == Some(old(self).pending()[0])
                && final(self).pending() == old(self).pending().drop_first(),
    {
        if self.next < self.values.len() {
            let v: i64 = self.values[self.next];
            self.next = self.next + 1;
            proof {
                assert(self.values@.skip(self.next as int)
                    =~= old(self).pending().drop_first());
            }
            Some(v)
        } else {
            None
        }
    }
}

impl RandomSource for ScriptedRandom {
    fn pick_u32(&mut self, lo: u32, hi: u32) -> (r: u32)
        ensures
            old(self).pending().len() == 0 ==> r == lo
                && final(self).pending() == old(self).pending(),
            old(self).pending().len() > 0
                ==> r == clamp_to(old(self).pending()[0] as int, lo as int, hi as int)
                    && final(self).pending() == old(self).pending().drop_first(),
    {
        match self.take() {
            None => lo,
            Some(v) => {
                if v < lo as i64 {
                    lo
                } else if v > hi as i64 {
                    hi
                } else {
                    v as u32
                }
            },
        }
    }

    fn pick_i64(&mut self, lo: i64, hi: i64) -> (r: i64)
        ensures
            old(self).pending().len() == 0 ==> r == lo
                && final(self).pending() == old(self).pending(),
            old(self).pending().len() > 0
                ==> r == clamp_to(old(self).pending()[0] as int, lo as int, hi as int)
                    && final(self).pending() == old(self).pending().drop_first(),
    {
        match self.take() {
            None => lo,
            Some(v) => {
                if v < lo {
                    lo
                } else if v > hi {
                    hi
                } else {
                    v
                }
            },
        }
    }
}

} // verus!
