//! Aggregation records and the ordering policies of the aggregation walker.
//!
//! A snapshotted aggregation set is walked under one of nine policies.  Each
//! policy is a strict total order over the snapshot once ties are broken by
//! snapshot position (the engine's comparator is stable with respect to
//! insertion order), so the visiting sequence of a walk is uniquely
//! determined.  The walk plan is computed by a verified selection sort.

use vstd::prelude::*;
use vstd::seq_lib::group_to_multiset_ensures;
use vstd::multiset::{Multiset, group_multiset_axioms};

verus! {

/// One keyed aggregation record: an aggregation variable, one key component,
/// and the combined value.  The payload itself is opaque to this layer; the
/// walker only orders these fields.
#[derive(Clone, Copy, PartialEq, Eq, Structural, Debug)]
pub struct AggRecord {
    pub varid: u64,
    pub key: i64,
    pub value: i64,
}

/// The nine ordering policies of the aggregation walker.  `Unordered` keeps
/// snapshot (insertion) order; `Sorted` is the engine's default and orders as
/// `ValSorted` does; the `Var` forms order by aggregation variable first; the
/// `Rev` forms reverse the record comparison but keep position ties stable.
#[allow(non_camel_case_types)]
#[derive(Clone, Copy, PartialEq, Eq, Structural, Debug)]
pub enum dtrace_aggwalk_order {
    Unordered,
    Sorted,
    KeySorted,
    ValSorted,
    KeyVarSorted,
    ValVarSorted,
    KeyRevSorted,
    ValRevSorted,
    KeyVarRevSorted,
    ValVarRevSorted,
}

/// A snapshot record paired with its snapshot position.
#[derive(Clone, Copy, PartialEq, Eq, Structural, Debug)]
pub struct Slot {
    pub rec: AggRecord,
    pub pos: usize,
}

/// The pair of record fields a policy compares, most significant first.
/// Reverse policies negate the fields, which reverses their comparison.
pub open spec fn sort_fields(order: dtrace_aggwalk_order, s: Slot) -> (int, int) {
    match order {
        dtrace_aggwalk_order::Unordered => (0int, 0int),
        dtrace_aggwalk_order::Sorted => (s.rec.value as int, 0int),
        dtrace_aggwalk_order::KeySorted => (s.rec.key as int, 0int),
        dtrace_aggwalk_order::ValSorted => (s.rec.value as int, 0int),
        dtrace_aggwalk_order::KeyVarSorted => (s.rec.varid as int, s.rec.key as int),
        dtrace_aggwalk_order::ValVarSorted => (s.rec.varid as int, s.rec.value as int),
        dtrace_aggwalk_order::KeyRevSorted => (-(s.rec.key as int), 0int),
        dtrace_aggwalk_order::ValRevSorted => (-(s.rec.value as int), 0int),
        dtrace_aggwalk_order::KeyVarRevSorted => (-(s.rec.varid as int), -(s.rec.key as int)),
        dtrace_aggwalk_order::ValVarRevSorted => (-(s.rec.varid as int), -(s.rec.value as int)),
    }
}

/// The strict visiting order of a policy: lexicographic on the policy's
/// fields, with snapshot position as the final tie breaker.
pub open spec fn slot_before(order: dtrace_aggwalk_order, a: Slot, b: Slot) -> bool {
    let (a1, a2) = sort_fields(order, a);
    let (b1, b2) = sort_fields(order, b);
    a1 < b1 || (a1 == b1 && (a2 < b2 || (a2 == b2 && a.pos < b.pos)))
}

/// Non-strict form of [`slot_before`].
pub open spec fn slot_leq(order: dtrace_aggwalk_order, a: Slot, b: Slot) -> bool {
    slot_before(order, a, b) || a == b
}

/// Every policy orders slots with distinct positions one way or the other.
pub proof fn lemma_slot_order_connected(order: dtrace_aggwalk_order, a: Slot, b: Slot)
    requires
        a.pos != b.pos,
    ensures
        slot_before(order, a, b) || slot_before(order, b, a),
{
}

/// Every policy's visiting order is transitive.
pub proof fn lemma_slot_order_transitive(order: dtrace_aggwalk_order, a: Slot, b: Slot, c: Slot)
    requires
        slot_before(order, a, b),
        slot_before(order, b, c),
    ensures
        slot_before(order, a, c),
{
}

/// Every policy's visiting order is irreflexive.
pub proof fn lemma_slot_order_irreflexive(order: dtrace_aggwalk_order, a: Slot)
    ensures
        !slot_before(order, a, a),
{
}

/// Decides the visiting order of two slots.
pub fn slot_before_exec(order: dtrace_aggwalk_order, a: &Slot, b: &Slot) -> (r: bool)
    ensures
        r == slot_before(order, *a, *b),
{
    match order {
        dtrace_aggwalk_order::Unordered => a.pos < b.pos,
        dtrace_aggwalk_order::Sorted | dtrace_aggwalk_order::ValSorted => {
            a.rec.value < b.rec.value || (a.rec.value == b.rec.value && a.pos < b.pos)
        },
        dtrace_aggwalk_order::KeySorted => {
            a.rec.key < b.rec.key || (a.rec.key == b.rec.key && a.pos < b.pos)
        },
        dtrace_aggwalk_order::KeyVarSorted => {
            a.rec.varid < b.rec.varid || (a.rec.varid == b.rec.varid && (a.rec.key < b.rec.key || (
            a.rec.key == b.rec.key && a.pos < b.pos)))
        },
        dtrace_aggwalk_order::ValVarSorted => {
            a.rec.varid < b.rec.varid || (a.rec.varid == b.rec.varid && (a.rec.value < b.rec.value
                || (a.rec.value == b.rec.value && a.pos < b.pos)))
        },
        dtrace_aggwalk_order::KeyRevSorted => {
            b.rec.key < a.rec.key || (a.rec.key == b.rec.key && a.pos < b.pos)
        },
        dtrace_aggwalk_order::ValRevSorted => {
            b.rec.value < a.rec.value || (a.rec.value == b.rec.value && a.pos < b.pos)
        },
        dtrace_aggwalk_order::KeyVarRevSorted => {
            b.rec.varid < a.rec.varid || (a.rec.varid == b.rec.varid && (b.rec.key < a.rec.key || (
            a.rec.key == b.rec.key && a.pos < b.pos)))
        },
        dtrace_aggwalk_order::ValVarRevSorted => {
            b.rec.varid < a.rec.varid || (a.rec.varid == b.rec.varid && (b.rec.value < a.rec.value
                || (a.rec.value == b.rec.value && a.pos < b.pos)))
        },
    }
}

/// The snapshot paired with its positions.
pub open spec fn slots_of(recs: Seq<AggRecord>) -> Seq<Slot> {
    Seq::new(recs.len(), |i: int| Slot { rec: recs[i], pos: i as usize })
}

/// Some entry of the plan carries snapshot position `p`.
pub open spec fn plan_has_pos(plan: Seq<Slot>, p: int) -> bool {
    exists|k: int| 0 <= k < plan.len() && (#[trigger] plan[k]).pos == p
}

/// `plan` is the visiting sequence a policy assigns to `snap`: every entry is
/// a snapshot record under its own position, the entries rise strictly in the
/// policy's order, and every snapshot position is visited.
pub open spec fn is_agg_plan(
    order: dtrace_aggwalk_order,
    snap: Seq<AggRecord>,
    plan: Seq<Slot>,
) -> bool {
    &&& plan.len() == snap.len()
    &&& forall|k: int|
        0 <= k < plan.len() ==> (#[trigger] plan[k]).pos < snap.len() && plan[k].rec
            == snap[plan[k].pos as int]
    &&& forall|i: int, j: int|
        0 <= i < j < plan.len() ==> slot_before(order, #[trigger] plan[i], #[trigger] plan[j])
    &&& forall|p: int| 0 <= p < snap.len() ==> #[trigger] plan_has_pos(plan, p)
}

/// Pairs each snapshot record with its position.
pub fn make_slots(recs: &Vec<AggRecord>) -> (out: Vec<Slot>)
    ensures
        out@ == slots_of(recs@),
{
    let mut out: Vec<Slot> = Vec::new();
    let mut i: usize = 0;
    while i < recs.len()
        invariant
            0 <= i <= recs@.len(),
            out@ == slots_of(recs@).take(i as int),
        decreases recs@.len() - i,
    {
        out.push(Slot { rec: recs[i], pos: i });
        i = i + 1;
        proof {
            assert(out@ =~= slots_of(recs@).take(i as int));
        }
    }
    proof {
        assert(slots_of(recs@).take(recs@.len() as int) =~= slots_of(recs@));
    }
    out
}

/// Whether `s` rises (non-strictly) in the policy's order.
pub open spec fn slots_sorted(order: dtrace_aggwalk_order, s: Seq<Slot>) -> bool {
    forall|i: int, j: int| 0 <= i < j < s.len() ==> slot_leq(order, #[trigger] s[i], #[trigger] s[j])
}

/// Sorts slots by the policy's order with a selection sort.  Positions must be
/// distinct, as they are in a snapshot's slots, so that the order is total.
pub fn sort_slots(order: dtrace_aggwalk_order, input: Vec<Slot>) -> (out: Vec<Slot>)
    requires
        forall|i: int, j: int|
            0 <= i < j < input@.len() ==> (#[trigger] input@[i]).pos != (#[trigger] input@[j]).pos,
    ensures
        out@.to_multiset() == input@.to_multiset(),
        slots_sorted(order, out@),
{
    broadcast use group_to_multiset_ensures, group_multiset_axioms;

    let mut rest = input;
    let mut out: Vec<Slot> = Vec::new();
    let ghost full = rest@.to_multiset();
    proof {
        assert(out@.to_multiset().add(rest@.to_multiset()) =~= full);
    }
    while rest.len() > 0
        invariant
            out@.to_multiset().add(rest@.to_multiset()) == full,
            full == input@.to_multiset(),
            slots_sorted(order, out@),
            forall|i: int, j: int|
                0 <= i < j < rest@.len() ==> (#[trigger] rest@[i]).pos != (
                #[trigger] rest@[j]).pos,
            forall|i: int, j: int|
                0 <= i < out@.len() && 0 <= j < rest@.len() ==> slot_leq(
                    order,
                    #[trigger] out@[i],
                    #[trigger] rest@[j],
                ),
        decreases rest@.len(),
    {
        let mut m: usize = 0;
        let mut t: usize = 1;
        while t < rest.len()
            invariant
                0 <= m < t <= rest@.len(),
                rest@.len() > 0,
                forall|i: int, j: int|
                    0 <= i < j < rest@.len() ==> (#[trigger] rest@[i]).pos != (
                    #[trigger] rest@[j]).pos,
                forall|j: int| 0 <= j < t ==> slot_leq(order, rest@[m as int], #[trigger] rest@[j]),
            decreases rest@.len() - t,
        {
            if slot_before_exec(order, &rest[t], &rest[m]) {
                proof {
                    assert forall|j: int| 0 <= j < t + 1 implies slot_leq(
                        order,
                        rest@[t as int],
                        #[trigger] rest@[j],
                    ) by {
                        if j < t {
                            if rest@[m as int] == rest@[j] {
                                assert(slot_before(order, rest@[t as int], rest@[j]));
                            } else {
                                lemma_slot_order_transitive(
                                    order,
                                    rest@[t as int],
                                    rest@[m as int],
                                    rest@[j],
                                );
                            }
                        }
                    }
                }
                m = t;
            } else {
                proof {
                    lemma_slot_order_connected(order, rest@[m as int], rest@[t as int]);
                }
            }
            t = t + 1;
        }
        let ghost old_out = out@;
        let ghost old_rest = rest@;
        let x = rest.remove(m);
        out.push(x);
        proof {
            broadcast use group_to_multiset_ensures, group_multiset_axioms;

            assert(old_rest[m as int] == x);
            assert(out@ == old_out.push(x));
            assert(rest@ == old_rest.remove(m as int));
            // multiset bookkeeping: one slot moved from rest to out
            assert(out@.to_multiset() == old_out.push(x).to_multiset());
            assert(out@.to_multiset() =~= old_out.to_multiset().insert(x));
            assert(rest@.to_multiset() == old_rest.remove(m as int).to_multiset());
            assert(rest@.to_multiset() =~= old_rest.to_multiset().remove(x));
            assert(old_rest.to_multiset().count(x) > 0);
            assert(out@.to_multiset().add(rest@.to_multiset()) =~= old_out.to_multiset().add(
                old_rest.to_multiset(),
            ));
            // the minimum slot keeps the output sorted
            assert forall|i: int, j: int| 0 <= i < j < out@.len() implies slot_leq(
                order,
                #[trigger] out@[i],
                #[trigger] out@[j],
            ) by {
                if j == out@.len() - 1 {
                    assert(out@[j] == x);
                    assert(slot_leq(order, old_out[i], old_rest[m as int]));
                }
            }
            // distinct positions survive the removal
            assert forall|i: int, j: int| 0 <= i < j < rest@.len() implies (
            #[trigger] rest@[i]).pos != (#[trigger] rest@[j]).pos by {
                let i0 = if i < m { i } else { i + 1 };
                let j0 = if j < m { j } else { j + 1 };
                assert(rest@[i] == old_rest[i0] && rest@[j] == old_rest[j0]);
            }
            // the minimum stays below everything still unsorted
            assert forall|i: int, j: int|
                0 <= i < out@.len() && 0 <= j < rest@.len() implies slot_leq(
                order,
                #[trigger] out@[i],
                #[trigger] rest@[j],
            ) by {
                let j0 = if j < m { j } else { j + 1 };
                assert(rest@[j] == old_rest[j0]);
                if i < out@.len() - 1 {
                    assert(slot_leq(order, old_out[i], old_rest[j0]));
                } else {
                    assert(out@[i] == x);
                    assert(slot_leq(order, old_rest[m as int], old_rest[j0]));
                }
            }
        }
    }
    proof {
        assert(rest@.to_multiset() =~= Multiset::<Slot>::empty());
        assert(out@.to_multiset() =~= full);
    }
    out
}

/// The sorted slots of a snapshot form the policy's walk plan.
pub proof fn lemma_sorted_slots_are_plan(
    order: dtrace_aggwalk_order,
    snap: Seq<AggRecord>,
    out: Seq<Slot>,
)
    requires
        snap.len() <= usize::MAX,
        out.to_multiset() == slots_of(snap).to_multiset(),
        slots_sorted(order, out),
    ensures
        is_agg_plan(order, snap, out),
{
    broadcast use group_to_multiset_ensures, group_multiset_axioms;

    let slots = slots_of(snap);
    assert(slots.len() == snap.len());
    assert(out.len() == out.to_multiset().len());
    assert(slots.len() == slots.to_multiset().len());
    // the snapshot's slots are pairwise distinct, so counts are at most one
    assert forall|i: int, j: int| 0 <= i < j < slots.len() implies slots[i] != slots[j] by {
        assert(slots[i].pos == i && slots[j].pos == j);
    }
    assert(slots.no_duplicates());
    slots.lemma_multiset_has_no_duplicates();
    // membership: everything in the plan is a snapshot slot and conversely
    assert forall|k: int| 0 <= k < out.len() implies (#[trigger] out[k]).pos < snap.len()
        && out[k].rec == snap[out[k].pos as int] by {
        assert(out.to_multiset().count(out[k]) > 0);
        assert(slots.to_multiset().count(out[k]) > 0);
        assert(slots.contains(out[k]));
        let w = choose|w: int| 0 <= w < slots.len() && slots[w] == out[k];
        assert(slots[w].pos == w);
    }
    // counts at most one in the snapshot, hence in the plan: no duplicates
    assert forall|x: Slot| out.to_multiset().contains(x) implies out.to_multiset().count(x)
        == 1 by {
        assert(slots.to_multiset().count(x) > 0);
    }
    out.lemma_multiset_has_no_duplicates_conv();
    // strict order between distinct sorted entries
    assert forall|i: int, j: int| 0 <= i < j < out.len() implies slot_before(
        order,
        #[trigger] out[i],
        #[trigger] out[j],
    ) by {
        assert(slot_leq(order, out[i], out[j]));
        assert(out[i] != out[j]);
    }
    // completeness: every snapshot position is planned
    assert forall|p: int| 0 <= p < snap.len() implies #[trigger] plan_has_pos(out, p) by {
        let s = Slot { rec: snap[p], pos: p as usize };
        assert(slots[p] == s);
        assert(slots.contains(s));
        assert(slots.to_multiset().count(s) > 0);
        assert(out.to_multiset().count(s) > 0);
        assert(out.contains(s));
        let k = choose|k: int| 0 <= k < out.len() && out[k] == s;
        assert(0 <= k < out.len() && out[k].pos == p);
    }
}

/// Plans agree on every position below `k`.
proof fn lemma_plan_prefix_equal(
    order: dtrace_aggwalk_order,
    snap: Seq<AggRecord>,
    p1: Seq<Slot>,
    p2: Seq<Slot>,
    k: int,
)
    requires
        is_agg_plan(order, snap, p1),
        is_agg_plan(order, snap, p2),
        0 <= k <= p1.len(),
    ensures
        forall|j: int| 0 <= j < k ==> p1[j] == p2[j],
    decreases k,
{
    if k > 0 {
        lemma_plan_prefix_equal(order, snap, p1, p2, k - 1);
        let kk = k - 1;
        // the slot planned at kk by one plan sits somewhere in the other
        let q1 = p1[kk].pos as int;
        assert(plan_has_pos(p2, q1));
        let m = choose|m: int| 0 <= m < p2.len() && (#[trigger] p2[m]).pos == q1;
        assert(p2[m] == p1[kk]);
        if m < kk {
            assert(p1[m] == p2[m]);
            assert(slot_before(order, p1[m], p1[kk]));
            lemma_slot_order_irreflexive(order, p1[kk]);
        } else {
            let q2 = p2[kk].pos as int;
            assert(plan_has_pos(p1, q2));
            let m2 = choose|m2: int| 0 <= m2 < p1.len() && (#[trigger] p1[m2]).pos == q2;
            assert(p1[m2] == p2[kk]);
            if m2 < kk {
                assert(p2[m2] == p1[m2]);
                assert(slot_before(order, p2[m2], p2[kk]));
                lemma_slot_order_irreflexive(order, p2[kk]);
            } else if m == kk || m2 == kk {
                assert(p1[kk] == p2[kk]);
            } else {
                // each plan would place the other's slot strictly later: the
                // two slots precede each other, which a strict order forbids
                assert(slot_before(order, p2[kk], p2[m]));
                assert(slot_before(order, p1[kk], p1[m2]));
                lemma_slot_order_transitive(order, p1[kk], p2[kk], p1[kk]);
                lemma_slot_order_irreflexive(order, p1[kk]);
            }
        }
    }
}

/// Each policy assigns a snapshot exactly one walk plan: the visiting
/// sequence of a walk is uniquely determined.
pub proof fn lemma_agg_plan_unique(
    order: dtrace_aggwalk_order,
    snap: Seq<AggRecord>,
    p1: Seq<Slot>,
    p2: Seq<Slot>,
)
    requires
        is_agg_plan(order, snap, p1),
        is_agg_plan(order, snap, p2),
    ensures
        p1 == p2,
{
    lemma_plan_prefix_equal(order, snap, p1, p2, p1.len() as int);
    assert(p1 =~= p2);
}

/// The walk plan of a snapshot under a policy; by [`lemma_agg_plan_unique`]
/// there is exactly one.
pub open spec fn agg_plan_of(order: dtrace_aggwalk_order, snap: Seq<AggRecord>) -> Seq<Slot> {
    choose|p: Seq<Slot>| is_agg_plan(order, snap, p)
}

/// Computes the walk plan of a snapshot under a policy.
pub fn agg_plan(order: dtrace_aggwalk_order, snap: &Vec<AggRecord>) -> (out: Vec<Slot>)
    ensures
        is_agg_plan(order, snap@, out@),
        out@ == agg_plan_of(order, snap@),
{
    let n = snap.len();
    let slots = make_slots(snap);
    proof {
        assert(snap@.len() == n as int);
        assert forall|i: int, j: int| 0 <= i < j < slots@.len() implies (
        #[trigger] slots@[i]).pos != (#[trigger] slots@[j]).pos by {
            assert(slots@[i].pos == i && slots@[j].pos == j);
        }
    }
    let out = sort_slots(order, slots);
    proof {
        lemma_sorted_slots_are_plan(order, snap@, out@);
        assert(is_agg_plan(order, snap@, agg_plan_of(order, snap@)));
        lemma_agg_plan_unique(order, snap@, out@, agg_plan_of(order, snap@));
    }
    out
}

} // verus!
