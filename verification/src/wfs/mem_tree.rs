//! Rebalancing the in-memory tree of file nodes after a delete.
//!
//! The tree is a B-tree: a node holds its children with the largest id that
//! each child holds, except for the last child, whose bound is the node's own
//! bound in its parent. A leaf holds file nodes sorted by id. A node that
//! falls under half of its capacity is rebalanced with a sibling: it takes an
//! entry from the sibling on the right or on the left, or the two are merged.
//!
//! The decisions and the moves of entries stand here over plain values; the
//! locking of nodes and the loading of nodes from the device are left to the
//! caller.

use vstd::prelude::*;

verus! {

/// How an unbalanced child is rebalanced with a sibling.
#[derive(Debug, Clone, Copy, PartialEq, Eq, Structural)]
pub enum RebalanceVariant {
    /// The first entry of the right sibling moves to the end of the child
    TakeFromRight,
    /// The last entry of the left sibling moves to the start of the child
    TakeFromLeft,
    /// The children at `merge_left_index` and the one after are merged
    Merge { merge_left_index: usize },
}

/// The ways to rebalance child `u` of a node with `n` children, in the order
/// in which they are tried, each with whether the siblings may be loaded from
/// the device for it. Ways that need no loading come first.
pub open spec fn spec_rebalance_candidates(n: int, u: int) -> Seq<(RebalanceVariant, bool)> {
    if u == 0 {
        let m = RebalanceVariant::Merge { merge_left_index: 0 };
        seq![
            (RebalanceVariant::TakeFromRight, false),
            (m, false),
            (m, true),
            (RebalanceVariant::TakeFromRight, true),
        ]
    } else if u == n - 1 {
        let m = RebalanceVariant::Merge { merge_left_index: (u - 1) as usize };
        seq![
            (RebalanceVariant::TakeFromLeft, false),
            (m, false),
            (m, true),
            (RebalanceVariant::TakeFromLeft, true),
        ]
    } else {
        let ml = RebalanceVariant::Merge { merge_left_index: (u - 1) as usize };
        let mr = RebalanceVariant::Merge { merge_left_index: u as usize };
        seq![
            (RebalanceVariant::TakeFromRight, false),
            (RebalanceVariant::TakeFromLeft, false),
            (ml, false),
            (mr, false),
            (ml, true),
            (mr, true),
            (RebalanceVariant::TakeFromRight, true),
            (RebalanceVariant::TakeFromLeft, true),
        ]
    }
}

/// Whether a way to rebalance child `u` works, where `lens[i]` is the number
/// of entries of child `i`, `resident[i]` whether it is in memory, and `cap`
/// the capacity of a node: a sibling may give an entry if it holds more than
/// half of `cap`, two children may merge if their entries fit into one, and
/// a sibling that is not in memory is only used where loading it is allowed.
pub open spec fn spec_candidate_fits(
    lens: Seq<usize>,
    resident: Seq<bool>,
    cap: usize,
    u: int,
    candidate: (RebalanceVariant, bool),
) -> bool {
    let load = candidate.1;
    match candidate.0 {
        RebalanceVariant::TakeFromRight => (load || resident[u + 1]) && lens[u + 1] > cap / 2,
        RebalanceVariant::TakeFromLeft => (load || resident[u - 1]) && lens[u - 1] > cap / 2,
        RebalanceVariant::Merge { merge_left_index } => {
            let l = merge_left_index as int;
            (load || (resident[l] && resident[l + 1])) && lens[l] + lens[l + 1] <= cap
        },
    }
}

/// The first of `candidates` from position `k` on that works.
pub open spec fn spec_first_fit(
    lens: Seq<usize>,
    resident: Seq<bool>,
    cap: usize,
    u: int,
    candidates: Seq<(RebalanceVariant, bool)>,
    k: int,
) -> Option<(RebalanceVariant, bool)>
    decreases candidates.len() - k,
{
    if k < 0 || k >= candidates.len() {
        None
    } else if spec_candidate_fits(lens, resident, cap, u, candidates[k]) {
        Some(candidates[k])
    } else {
        spec_first_fit(lens, resident, cap, u, candidates, k + 1)
    }
}

/// How child `u` of a node is rebalanced: the first way of
/// [spec_rebalance_candidates] that works, see [spec_candidate_fits].
pub open spec fn spec_rebalance_choice(
    lens: Seq<usize>,
    resident: Seq<bool>,
    cap: usize,
    u: int,
) -> Option<(RebalanceVariant, bool)> {
    spec_first_fit(lens, resident, cap, u, spec_rebalance_candidates(lens.len() as int, u), 0)
}

/// Each way to rebalance child `u` only names children that exist: a right
/// sibling where it takes from the right, a left one where it takes from the
/// left, and two neighbours where it merges.
pub proof fn lemma_candidates_in_range(n: int, u: int, k: int)
    requires
        0 <= u < n <= usize::MAX,
        n >= 2,
        0 <= k < spec_rebalance_candidates(n, u).len(),
    ensures
        spec_rebalance_candidates(n, u)[k].0 is TakeFromRight ==> u + 1 < n,
        spec_rebalance_candidates(n, u)[k].0 is TakeFromLeft ==> u >= 1,
        spec_rebalance_candidates(n, u)[k].0 matches RebalanceVariant::Merge { merge_left_index }
            ==> merge_left_index + 1 < n && (merge_left_index == u || merge_left_index + 1 == u),
{
}

/// The ways to rebalance child `u` of a node with `n` children, see
/// [spec_rebalance_candidates].
pub fn rebalance_candidates(n: usize, u: usize) -> (r: Vec<(RebalanceVariant, bool)>)
    requires
        u < n,
        n >= 2,
    ensures
        r@ == spec_rebalance_candidates(n as int, u as int),
{
    let mut r: Vec<(RebalanceVariant, bool)> = Vec::new();
    if u == 0 {
        let m = RebalanceVariant::Merge { merge_left_index: 0 };
        r.push((RebalanceVariant::TakeFromRight, false));
        r.push((m, false));
        r.push((m, true));
        r.push((RebalanceVariant::TakeFromRight, true));
    } else if u == n - 1 {
        let m = RebalanceVariant::Merge { merge_left_index: u - 1 };
        r.push((RebalanceVariant::TakeFromLeft, false));
        r.push((m, false));
        r.push((m, true));
        r.push((RebalanceVariant::TakeFromLeft, true));
    } else {
        let ml = RebalanceVariant::Merge { merge_left_index: u - 1 };
        let mr = RebalanceVariant::Merge { merge_left_index: u };
        r.push((RebalanceVariant::TakeFromRight, false));
        r.push((RebalanceVariant::TakeFromLeft, false));
        r.push((ml, false));
        r.push((mr, false));
        r.push((ml, true));
        r.push((mr, true));
        r.push((RebalanceVariant::TakeFromRight, true));
        r.push((RebalanceVariant::TakeFromLeft, true));
    }
    proof {
        assert(r@ =~= spec_rebalance_candidates(n as int, u as int));
    }
    r
}

/// Chooses how child `unbalanced` of a node is rebalanced, see
/// [spec_rebalance_choice]: `lens[i]` is the number of entries of child `i`,
/// `resident[i]` whether it is in memory, and `cap` the capacity of a node.
/// The second part of the result says whether the siblings involved are to
/// be loaded from the device first. `None` where no way works, which a valid
/// tree never has.
pub fn choose_rebalance(
    lens: &Vec<usize>,
    resident: &Vec<bool>,
    cap: usize,
    unbalanced: usize,
) -> (r: Option<(RebalanceVariant, bool)>)
    requires
        lens@.len() == resident@.len(),
        lens@.len() >= 2,
        unbalanced < lens@.len(),
    ensures
        r == spec_rebalance_choice(lens@, resident@, cap, unbalanced as int),
{
    let n = lens.len();
    let u = unbalanced;
    let candidates = rebalance_candidates(n, u);
    let mut k: usize = 0;
    while k < candidates.len()
        invariant
            n == lens@.len(),
            n == resident@.len(),
            n >= 2,
            u < n,
            u == unbalanced,
            candidates@ == spec_rebalance_candidates(n as int, u as int),
            k <= candidates@.len(),
            spec_rebalance_choice(lens@, resident@, cap, u as int) == spec_first_fit(
                lens@,
                resident@,
                cap,
                u as int,
                candidates@,
                k as int,
            ),
        decreases candidates@.len() - k,
    {
        let (variant, load) = candidates[k];
        proof {
            lemma_candidates_in_range(n as int, u as int, k as int);
            assert((variant, load) == candidates@[k as int]);
        }
        let fits = match variant {
            RebalanceVariant::TakeFromRight => {
                (load || resident[u + 1]) && lens[u + 1] > cap / 2
            },
            RebalanceVariant::TakeFromLeft => {
                (load || resident[u - 1]) && lens[u - 1] > cap / 2
            },
            RebalanceVariant::Merge { merge_left_index } => {
                let l = merge_left_index;
                (load || (resident[l] && resident[l + 1])) && lens[l] <= cap && lens[l + 1] <= cap
                    - lens[l]
            },
        };
        proof {
            assert(fits == spec_candidate_fits(lens@, resident@, cap, u as int, candidates@[k as int]));
        }
        if fits {
            proof {
                assert(spec_first_fit(lens@, resident@, cap, u as int, candidates@, k as int) == Some(
                    candidates@[k as int],
                ));
            }
            return Some((variant, load));
        }
        k += 1;
    }
    None
}

/// Moves the first entry of `right` to the end of `left`: the rotation of
/// two sibling leaves for [RebalanceVariant::TakeFromRight]. The entries of
/// the two, read in order, stay the same.
pub fn take_from_right<E>(left: &mut Vec<E>, right: &mut Vec<E>)
    requires
        old(right)@.len() > 0,
    ensures
        final(left)@ == old(left)@.push(old(right)@[0]),
        final(right)@ == old(right)@.drop_first(),
        final(left)@ + final(right)@ == old(left)@ + old(right)@,
{
    let e = right.remove(0);
    left.push(e);
    proof {
        assert(final(left)@ + final(right)@ =~= old(left)@ + old(right)@);
    }
}

/// Moves the last entry of `left` to the start of `right`: the rotation of
/// two sibling leaves for [RebalanceVariant::TakeFromLeft]. The entries of
/// the two, read in order, stay the same.
pub fn take_from_left<E>(left: &mut Vec<E>, right: &mut Vec<E>)
    requires
        old(left)@.len() > 0,
    ensures
        final(left)@ == old(left)@.drop_last(),
        final(right)@ == seq![old(left)@.last()] + old(right)@,
        final(left)@ + final(right)@ == old(left)@ + old(right)@,
{
    let e = left.pop().unwrap();
    right.insert(0, e);
    proof {
        assert(final(right)@ =~= seq![old(left)@.last()] + old(right)@);
        assert(final(left)@ + final(right)@ =~= old(left)@ + old(right)@);
    }
}

/// Moves all entries of `right` to the end of `left`: the merge of two
/// sibling leaves for [RebalanceVariant::Merge].
pub fn merge_into_left<E>(left: &mut Vec<E>, right: &mut Vec<E>)
    ensures
        final(left)@ == old(left)@ + old(right)@,
        final(right)@.len() == 0,
{
    left.append(right);
}

/// Whether the children of a node are bounded as the tree keeps them: there
/// is at least one, the last has no bound of its own, and every other has one.
pub open spec fn bounds_wf<C>(children: Seq<(C, Option<u64>)>) -> bool {
    &&& children.len() > 0
    &&& children.last().1 is None
    &&& forall|i: int| 0 <= i < children.len() - 1 ==> (#[trigger] children[i]).1 is Some
}

/// The children of a node with the bound of each: the last child is bounded
/// by `max`, the node's own bound in its parent.
pub open spec fn bounded<C>(children: Seq<(C, Option<u64>)>, max: Option<u64>) -> Seq<(C, Option<u64>)> {
    if children.len() == 0 {
        children
    } else {
        children.update(children.len() - 1, (children.last().0, max))
    }
}

/// Moves the first child of the node `right` to the end of the node `left`
/// whose bound in the parent is `left_max`: the rotation of two sibling
/// nodes for [RebalanceVariant::TakeFromRight]. The former last child of
/// `left` is bounded by the former `left_max`, and `left_max` becomes the
/// bound of the moved child. The children of the two with their bounds,
/// read in order, stay the same.
pub fn take_child_from_right<C>(
    left: &mut Vec<(C, Option<u64>)>,
    left_max: &mut Option<u64>,
    right: &mut Vec<(C, Option<u64>)>,
)
    requires
        bounds_wf(old(left)@),
        bounds_wf(old(right)@),
        old(right)@.len() >= 2,
        *old(left_max) is Some,
    ensures
        bounds_wf(final(left)@),
        bounds_wf(final(right)@),
        final(left)@.len() == old(left)@.len() + 1,
        final(right)@.len() == old(right)@.len() - 1,
        *final(left_max) == old(right)@[0].1,
        forall|m: Option<u64>|
            #![trigger bounded(final(right)@, m)]
            bounded(final(left)@, *final(left_max)) + bounded(final(right)@, m) == bounded(
                old(left)@,
                *old(left_max),
            ) + bounded(old(right)@, m),
{
    let ghost l0 = left@;
    let ghost r0 = right@;
    let ghost lm0 = *left_max;
    let (child, max) = right.remove(0);
    proof {
        assert(r0[0].1 is Some);
    }
    let (last, _) = left.pop().unwrap();
    left.push((last, *left_max));
    left.push((child, None));
    *left_max = max;
    proof {
        assert forall|i: int| 0 <= i < left@.len() - 1 implies (#[trigger] left@[i]).1 is Some by {
            if i < l0.len() - 1 {
                assert(left@[i] == l0[i]);
            }
        }
        assert forall|i: int| 0 <= i < right@.len() - 1 implies (#[trigger] right@[i]).1 is Some by {
            assert(right@[i] == r0[i + 1]);
        }
        assert forall|m: Option<u64>|
            #![trigger bounded(right@, m)]
            bounded(left@, *left_max) + bounded(right@, m) == bounded(l0, lm0) + bounded(r0, m) by {
            assert(bounded(left@, *left_max) + bounded(right@, m) =~= bounded(l0, lm0) + bounded(
                r0,
                m,
            ));
        }
    }
}

/// Moves the last child of the node `left`, whose bound in the parent is
/// `left_max`, to the start of the node `right`: the rotation of two sibling
/// nodes for [RebalanceVariant::TakeFromLeft]. The moved child is bounded
/// by the former `left_max`, and `left_max` becomes the bound of the new
/// last child of `left`. The children of the two with their bounds, read in
/// order, stay the same.
pub fn take_child_from_left<C>(
    left: &mut Vec<(C, Option<u64>)>,
    left_max: &mut Option<u64>,
    right: &mut Vec<(C, Option<u64>)>,
)
    requires
        bounds_wf(old(left)@),
        bounds_wf(old(right)@),
        old(left)@.len() >= 2,
        *old(left_max) is Some,
    ensures
        bounds_wf(final(left)@),
        bounds_wf(final(right)@),
        final(left)@.len() == old(left)@.len() - 1,
        final(right)@.len() == old(right)@.len() + 1,
        *final(left_max) == old(left)@[old(left)@.len() - 2].1,
        forall|m: Option<u64>|
            #![trigger bounded(final(right)@, m)]
            bounded(final(left)@, *final(left_max)) + bounded(final(right)@, m) == bounded(
                old(left)@,
                *old(left_max),
            ) + bounded(old(right)@, m),
{
    let ghost l0 = left@;
    let ghost r0 = right@;
    let ghost lm0 = *left_max;
    let (moved, _) = left.pop().unwrap();
    let (last, max) = left.pop().unwrap();
    left.push((last, None));
    right.insert(0, (moved, *left_max));
    *left_max = max;
    proof {
        assert forall|i: int| 0 <= i < left@.len() - 1 implies (#[trigger] left@[i]).1 is Some by {
            assert(left@[i] == l0[i]);
        }
        assert forall|i: int| 0 <= i < right@.len() - 1 implies (#[trigger] right@[i]).1 is Some by {
            if i > 0 {
                assert(right@[i] == r0[i - 1]);
            }
        }
        assert(right@.last() == r0.last());
        assert forall|m: Option<u64>|
            #![trigger bounded(right@, m)]
            bounded(left@, *left_max) + bounded(right@, m) == bounded(l0, lm0) + bounded(r0, m) by {
            assert(bounded(left@, *left_max) + bounded(right@, m) =~= bounded(l0, lm0) + bounded(
                r0,
                m,
            ));
        }
    }
}

/// Moves all children of the node `right` to the end of the node `left`,
/// whose bound in the parent is `left_max`: the merge of two sibling nodes
/// for [RebalanceVariant::Merge]. The former last child of `left` is bounded
/// by `left_max`; the merged node takes the bound of `right` in the parent.
/// The children of the two with their bounds, read in order, stay the same.
pub fn merge_children<C>(
    left: &mut Vec<(C, Option<u64>)>,
    left_max: Option<u64>,
    right: &mut Vec<(C, Option<u64>)>,
)
    requires
        bounds_wf(old(left)@),
        bounds_wf(old(right)@),
        left_max is Some,
    ensures
        bounds_wf(final(left)@),
        final(right)@.len() == 0,
        final(left)@.len() == old(left)@.len() + old(right)@.len(),
        forall|m: Option<u64>|
            #![trigger bounded(old(right)@, m)]
            bounded(final(left)@, m) == bounded(old(left)@, left_max) + bounded(old(right)@, m),
{
    let ghost l0 = left@;
    let ghost r0 = right@;
    let (last, _) = left.pop().unwrap();
    left.push((last, left_max));
    left.append(right);
    proof {
        assert forall|i: int| 0 <= i < left@.len() - 1 implies (#[trigger] left@[i]).1 is Some by {
            if i < l0.len() - 1 {
                assert(left@[i] == l0[i]);
            } else if i >= l0.len() {
                assert(left@[i] == r0[i - l0.len()]);
            }
        }
        assert(left@.last() == r0.last());
        assert forall|m: Option<u64>|
            #![trigger bounded(r0, m)]
            bounded(left@, m) == bounded(l0, left_max) + bounded(r0, m) by {
            assert(bounded(left@, m) =~= bounded(l0, left_max) + bounded(r0, m));
        }
    }
}

/// Replaces the children at `merge_left_index` and the one after by the
/// node `merged` that holds both, bounded by the bound of the second.
pub fn replace_merged<C>(parent: &mut Vec<(C, Option<u64>)>, merge_left_index: usize, merged: C)
    requires
        merge_left_index + 1 < old(parent)@.len(),
    ensures
        final(parent)@ == old(parent)@.subrange(0, merge_left_index as int).push(
            (merged, old(parent)@[merge_left_index + 1].1),
        ) + old(parent)@.subrange(merge_left_index + 2, old(parent)@.len() as int),
{
    let ghost p0 = parent@;
    let n = parent.len();
    let (_, max) = parent.remove(merge_left_index + 1);
    let _old = parent.remove(merge_left_index);
    parent.insert(merge_left_index, (merged, max));
    proof {
        assert(parent@ =~= p0.subrange(0, merge_left_index as int).push(
            (merged, p0[merge_left_index + 1].1),
        ) + p0.subrange(merge_left_index + 2, p0.len() as int));
    }
}

} // verus!
