//! The visitor protocol shared by every callback-driven iteration.
//!
//! A visitor is invoked once per item, in the iteration's order, and only its
//! return value can end the iteration early.  The policy below captures the
//! visitor's control decision as data; the items a visitor saw are appended to
//! a caller-supplied log, so the exact visit sequence is part of each
//! iteration's contract.

use vstd::prelude::*;

verus! {

/// The visitor's stop discipline: visit everything, or signal stop as soon as
/// at least `k` items of this iteration have been seen.  Only a visit's return
/// can signal, so a visitor told to stop from the outset still sees one item.
#[derive(Clone, Copy, PartialEq, Eq, Structural, Debug)]
pub enum VisitPolicy {
    All,
    StopAfter(usize),
}

/// How many of `n` items a visitor under `policy` sees before the iteration
/// ends.
pub open spec fn visit_cap(policy: VisitPolicy, n: nat) -> nat {
    match policy {
        VisitPolicy::All => n,
        VisitPolicy::StopAfter(k) => {
            let kk: nat = if k == 0 {
                1
            } else {
                k as nat
            };
            if n <= kk {
                n
            } else {
                kk
            }
        },
    }
}

/// Computes [`visit_cap`].
pub fn visit_cap_exec(policy: VisitPolicy, n: usize) -> (r: usize)
    ensures
        r == visit_cap(policy, n as nat),
{
    match policy {
        VisitPolicy::All => n,
        VisitPolicy::StopAfter(k) => {
            let kk = if k == 0 {
                1
            } else {
                k
            };
            if n <= kk {
                n
            } else {
                kk
            }
        },
    }
}

} // verus!
