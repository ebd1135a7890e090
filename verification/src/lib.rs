//! A simulation core for encoded vector clocks: per-process clock state
//! machines (vector clock, prime-product encoded clock and its log-domain
//! approximation), a randomized dispatcher, and a collector that measures
//! how faithfully the compact encodings reproduce exact causality.

use vstd::prelude::*;

pub mod collector;
pub mod config;
pub mod dispatch;
pub mod evc;
pub mod event;
pub mod logclock;
pub mod numbers;
pub mod pick;
pub mod process;
pub mod utils;

verus! {

/// An element-for-element copy of a vector of plain values.
pub fn copy_vec<T: Copy>(v: &Vec<T>) -> (r: Vec<T>)
    ensures
        r@ == v@,
{
    let mut r: Vec<T> = Vec::new();
    let mut j: usize = 0;
    while j < v.len()
        invariant
            0 <= j <= v.len(),
            r@ == v@.subrange(0, j as int),
        decreases v.len() - j,
    {
        r.push(v[j]);
        proof {
            assert(r@ =~= v@.subrange(0, j as int + 1));
        }
        j += 1;
    }
    proof {
        assert(v@.subrange(0, v@.len() as int) =~= v@);
    }
    r
}

} // verus!
