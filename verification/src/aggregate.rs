use vstd::prelude::*;

use std::collections::HashMap;

use crate::clip::{clip_spec, clip_to_month, touches_month, CLIP_ABS_BOUND};
use crate::date::Date;

verus! {

broadcast use vstd::std_specs::hash::group_hash_axioms;

/// One leave interval of one employee, both endpoints inclusive.
#[derive(Clone, Copy, PartialEq, Eq, Structural, Debug)]
pub struct LeaveInterval {
    pub emp_id: i32,
    pub from: Date,
    pub to: Date,
}

impl LeaveInterval {
    /// Both endpoints are well-formed dates.
    pub open spec fn wf(self) -> bool {
        self.from.wf() && self.to.wf()
    }
}

/// What one interval adds to the target-month total of employee `e`:
/// its clipped day count when it is the employee's and touches the
/// target month, nothing otherwise.
pub open spec fn interval_term(iv: LeaveInterval, e: i32, t: int) -> int {
    if iv.emp_id == e && touches_month(iv.from, iv.to, t) {
        clip_spec(iv.from, iv.to, t)
    } else {
        0
    }
}

/// Target-month leave total of employee `e` over a sequence of intervals.
pub open spec fn total_for(s: Seq<LeaveInterval>, e: i32, t: int) -> int
    decreases s.len(),
{
    if s.len() == 0 {
        0
    } else {
        total_for(s.drop_last(), e, t) + interval_term(s.last(), e, t)
    }
}

/// Whether some interval of employee `e` touches the target month, which
/// is exactly when the aggregate holds an entry for `e`.
pub open spec fn has_entry(s: Seq<LeaveInterval>, e: i32, t: int) -> bool {
    exists|i: int|
        0 <= i < s.len() && s[i].emp_id == e && touches_month(s[i].from, s[i].to, t)
}

/// An employee without an entry has a zero total: every interval that is
/// not the employee's, or does not touch the target month, contributes
/// nothing.
pub proof fn lemma_total_zero_when_no_entry(s: Seq<LeaveInterval>, e: i32, t: int)
    requires
        !has_entry(s, e, t),
    ensures
        total_for(s, e, t) == 0,
    decreases s.len(),
{
    if s.len() > 0 {
        assert forall|k: int|
            0 <= k < s.drop_last().len() implies !(s.drop_last()[k].emp_id == e && touches_month(
            s.drop_last()[k].from,
            s.drop_last()[k].to,
            t,
        )) by {
            assert(s[k] == s.drop_last()[k]);
        }
        lemma_total_zero_when_no_entry(s.drop_last(), e, t);
        assert(interval_term(s.last(), e, t) == 0) by {
            assert(!(s[s.len() - 1].emp_id == e && touches_month(
                s[s.len() - 1].from,
                s[s.len() - 1].to,
                t,
            )));
        }
    }
}

/// An employee none of whose intervals touches the target month gets no
/// aggregate entry at all.
pub proof fn lemma_untouched_employee_has_no_entry(s: Seq<LeaveInterval>, e: i32, t: int)
    requires
        forall|i: int|
            0 <= i < s.len() && (#[trigger] s[i]).emp_id == e ==> !touches_month(
                s[i].from,
                s[i].to,
                t,
            ),
    ensures
        !has_entry(s, e, t),
{
    if has_entry(s, e, t) {
        let w = choose|i: int|
            0 <= i < s.len() && s[i].emp_id == e && touches_month(s[i].from, s[i].to, t);
        assert(!touches_month(s[w].from, s[w].to, t));
    }
}

/// Removing one interval from anywhere in the sequence takes exactly its
/// own term out of the total.
proof fn lemma_total_remove(s: Seq<LeaveInterval>, i: int, e: i32, t: int)
    requires
        0 <= i < s.len(),
    ensures
        total_for(s.remove(i), e, t) == total_for(s, e, t) - interval_term(s[i], e, t),
    decreases s.len(),
{
    if i == s.len() - 1 {
        assert(s.remove(i) =~= s.drop_last());
    } else {
        assert(s.remove(i).drop_last() =~= s.drop_last().remove(i));
        assert(s.remove(i).last() == s.last());
        lemma_total_remove(s.drop_last(), i, e, t);
        assert(s.drop_last()[i] == s[i]);
    }
}

/// Two interval sequences with the same intervals, in any order, give the
/// same per-employee total.
proof fn lemma_total_permutation(s1: Seq<LeaveInterval>, s2: Seq<LeaveInterval>, e: i32, t: int)
    requires
        s1.to_multiset() == s2.to_multiset(),
    ensures
        total_for(s1, e, t) == total_for(s2, e, t),
    decreases s1.len(),
{
    broadcast use vstd::seq_lib::group_to_multiset_ensures;

    assert(s1.to_multiset().len() == s1.len());
    assert(s2.to_multiset().len() == s2.len());
    if s1.len() == 0 {
        assert(s2.len() == 0);
    } else {
        let x = s1.last();
        assert(s1.contains(x));
        assert(s2.to_multiset().count(x) > 0);
        assert(s2.contains(x));
        let j = choose|j: int| 0 <= j < s2.len() && s2[j] == x;
        assert(s1.remove(s1.len() - 1) =~= s1.drop_last());
        assert(s1.drop_last().to_multiset() =~= s2.remove(j).to_multiset());
        lemma_total_remove(s2, j, e, t);
        lemma_total_permutation(s1.drop_last(), s2.remove(j), e, t);
    }
}

/// Two interval sequences with the same intervals make entries for the
/// same employees.
proof fn lemma_has_entry_permutation(s1: Seq<LeaveInterval>, s2: Seq<LeaveInterval>, e: i32, t: int)
    requires
        s1.to_multiset() == s2.to_multiset(),
    ensures
        has_entry(s1, e, t) == has_entry(s2, e, t),
{
    broadcast use vstd::seq_lib::group_to_multiset_ensures;

    if has_entry(s1, e, t) {
        let w = choose|k: int|
            0 <= k < s1.len() && s1[k].emp_id == e && touches_month(s1[k].from, s1[k].to, t);
        assert(s1.contains(s1[w]));
        assert(s2.to_multiset().count(s1[w]) > 0);
        assert(s2.contains(s1[w]));
        let j = choose|j: int| 0 <= j < s2.len() && s2[j] == s1[w];
        assert(s2[j].emp_id == e && touches_month(s2[j].from, s2[j].to, t));
    }
    if has_entry(s2, e, t) {
        let w = choose|k: int|
            0 <= k < s2.len() && s2[k].emp_id == e && touches_month(s2[k].from, s2[k].to, t);
        assert(s2.contains(s2[w]));
        assert(s1.to_multiset().count(s2[w]) > 0);
        assert(s1.contains(s2[w]));
        let j = choose|j: int| 0 <= j < s1.len() && s1[j] == s2[w];
        assert(s1[j].emp_id == e && touches_month(s1[j].from, s1[j].to, t));
    }
}

/// Aggregation is commutative: processing the same intervals in any order
/// yields the same per-employee totals, and entries for the same
/// employees.
pub proof fn lemma_aggregate_commutative(
    s1: Seq<LeaveInterval>,
    s2: Seq<LeaveInterval>,
    e: i32,
    t: int,
)
    requires
        s1.to_multiset() == s2.to_multiset(),
    ensures
        total_for(s1, e, t) == total_for(s2, e, t),
        has_entry(s1, e, t) == has_entry(s2, e, t),
{
    lemma_total_permutation(s1, s2, e, t);
    lemma_has_entry_permutation(s1, s2, e, t);
}

/// Folds every interval through the clipper and accumulates per-employee
/// day totals for the target month. An employee gets an entry exactly when
/// one of its intervals touches the target month; intervals that do not
/// touch it never create an entry.
pub fn aggregate_leave(intervals: &Vec<LeaveInterval>, target: u32) -> (m: HashMap<i32, i128>)
    requires
        forall|i: int| 0 <= i < intervals@.len() ==> (#[trigger] intervals@[i]).wf(),
        1 <= target <= 12,
    ensures
        forall|e: i32| #[trigger]
            m@.contains_key(e) <==> has_entry(intervals@, e, target as int),
        forall|e: i32| #[trigger]
            m@.contains_key(e) ==> m@[e] == total_for(intervals@, e, target as int),
{
    let ghost t: int = target as int;
    let mut m: HashMap<i32, i128> = HashMap::new();
    let n = intervals.len();
    let mut i: usize = 0;
    while i < n
        invariant
            n == intervals@.len(),
            0 <= i <= n,
            1 <= target <= 12,
            t == target as int,
            forall|k: int| 0 <= k < intervals@.len() ==> (#[trigger] intervals@[k]).wf(),
            vstd::std_specs::hash::obeys_key_model::<i32>(),
            forall|e: i32| #[trigger]
                m@.contains_key(e) <==> has_entry(intervals@.subrange(0, i as int), e, t),
            forall|e: i32| #[trigger]
                m@.contains_key(e) ==> m@[e] == total_for(intervals@.subrange(0, i as int), e, t)
                    && -((i as int) * (CLIP_ABS_BOUND as int)) <= m@[e] <= (i as int) * (
                CLIP_ABS_BOUND as int),
        decreases n - i,
    {
        let ghost prefix = intervals@.subrange(0, i as int);
        let iv = intervals[i];
        let touches = iv.from.month == target || iv.to.month == target || (iv.from.month < target
            && target < iv.to.month);
        proof {
            assert(intervals@.subrange(0, i + 1).drop_last() =~= prefix);
            assert(intervals@.subrange(0, i + 1).last() == intervals@[i as int]);
        }
        if touches {
            let c = clip_to_month(&iv.from, &iv.to, target);
            let cur: i128 = match m.get(&iv.emp_id) {
                Some(v) => *v,
                None => 0,
            };
            proof {
                if !m@.contains_key(iv.emp_id) {
                    lemma_total_zero_when_no_entry(prefix, iv.emp_id, t);
                }
                assert(cur == total_for(prefix, iv.emp_id, t));
            }
            m.insert(iv.emp_id, cur + c as i128);
            proof {
                let longer = intervals@.subrange(0, i + 1);
                assert forall|e: i32| #[trigger] m@.contains_key(e) implies has_entry(
                    longer,
                    e,
                    t,
                ) by {
                    if e == iv.emp_id {
                        assert(longer[i as int].emp_id == e && touches_month(
                            longer[i as int].from,
                            longer[i as int].to,
                            t,
                        ));
                    } else {
                        let w = choose|k: int|
                            0 <= k < prefix.len() && prefix[k].emp_id == e && touches_month(
                                prefix[k].from,
                                prefix[k].to,
                                t,
                            );
                        assert(longer[w].emp_id == e && touches_month(
                            longer[w].from,
                            longer[w].to,
                            t,
                        ));
                    }
                }
                assert forall|e: i32| has_entry(longer, e, t) implies #[trigger] m@.contains_key(
                    e,
                ) by {
                    let w = choose|k: int|
                        0 <= k < longer.len() && longer[k].emp_id == e && touches_month(
                            longer[k].from,
                            longer[k].to,
                            t,
                        );
                    if w < i as int {
                        assert(prefix[w].emp_id == e && touches_month(
                            prefix[w].from,
                            prefix[w].to,
                            t,
                        ));
                    }
                }
            }
        } else {
            proof {
                let longer = intervals@.subrange(0, i + 1);
                assert forall|e: i32| has_entry(longer, e, t) == has_entry(prefix, e, t) by {
                    if has_entry(longer, e, t) {
                        let w = choose|k: int|
                            0 <= k < longer.len() && longer[k].emp_id == e && touches_month(
                                longer[k].from,
                                longer[k].to,
                                t,
                            );
                        assert(w < i as int);
                        assert(prefix[w].emp_id == e && touches_month(
                            prefix[w].from,
                            prefix[w].to,
                            t,
                        ));
                    }
                    if has_entry(prefix, e, t) {
                        let w = choose|k: int|
                            0 <= k < prefix.len() && prefix[k].emp_id == e && touches_month(
                                prefix[k].from,
                                prefix[k].to,
                                t,
                            );
                        assert(longer[w].emp_id == e && touches_month(
                            longer[w].from,
                            longer[w].to,
                            t,
                        ));
                    }
                }
            }
        }
        i = i + 1;
    }
    proof {
        assert(intervals@.subrange(0, n as int) =~= intervals@);
    }
    m
}

} // verus!
