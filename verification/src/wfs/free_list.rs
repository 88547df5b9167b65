//! Sorted lists of disjoint block groups and the set of blocks they cover.

use vstd::prelude::*;

use super::lba::BlockGroup;

verus! {

/// The groups are well formed, sorted by their start, and between two groups
/// there is at least one block that is in neither.
pub open spec fn groups_wf(free: Seq<BlockGroup>) -> bool {
    &&& forall|i: int| 0 <= i < free.len() ==> (#[trigger] free[i]).wf()
    &&& forall|i: int, j: int|
        0 <= i < j < free.len() ==> (#[trigger] free[i]).end_excl() < (#[trigger] free[j]).start@
}

/// Whether some group of `groups` holds `block`.
pub open spec fn covered(groups: Seq<BlockGroup>, block: int) -> bool {
    exists|i: int| 0 <= i < groups.len() && (#[trigger] groups[i]).holds(block)
}

/// The set of blocks held by the groups.
pub open spec fn blocks_of(groups: Seq<BlockGroup>) -> Set<int> {
    Set::new(|b: int| covered(groups, b))
}

/// `free` with the groups at `lo..hi` replaced by `gs`.
pub open spec fn splice(free: Seq<BlockGroup>, lo: int, hi: int, gs: Seq<BlockGroup>) -> Seq<
    BlockGroup,
> {
    free.take(lo) + gs + free.skip(hi)
}

/// The groups may be spliced in between the neighbours of `lo..hi` without
/// touching them.
pub open spec fn fits_between(free: Seq<BlockGroup>, lo: int, hi: int, gs: Seq<BlockGroup>) -> bool {
    gs.len() > 0 ==> {
        &&& lo > 0 ==> free[lo - 1].end_excl() < gs[0].start@
        &&& hi < free.len() ==> gs[gs.len() - 1].end_excl() < free[hi].start@
    }
}

/// Replacing a range of a sorted list by sorted groups that fit between the
/// neighbours keeps the list sorted, and the covered blocks are those of the
/// old list outside the replaced range plus those of the new groups.
pub proof fn lemma_splice(free: Seq<BlockGroup>, lo: int, hi: int, gs: Seq<BlockGroup>)
    requires
        groups_wf(free),
        groups_wf(gs),
        0 <= lo <= hi <= free.len(),
        fits_between(free, lo, hi, gs),
    ensures
        groups_wf(splice(free, lo, hi, gs)),
        forall|b: int|
            covered(splice(free, lo, hi, gs), b) <==> ((covered(free, b) && !covered(
                free.subrange(lo, hi),
                b,
            )) || covered(gs, b)),
        splice(free, lo, hi, gs).len() == free.len() - (hi - lo) + gs.len(),
{
    let n = splice(free, lo, hi, gs);
    let g = gs.len() as int;
    assert(n.len() == lo + g + (free.len() - hi));
    assert forall|x: int| 0 <= x < n.len() implies #[trigger] n[x] == (if x < lo {
        free[x]
    } else if x < lo + g {
        gs[x - lo]
    } else {
        free[x - lo - g + hi]
    }) by {
    }
    assert forall|x: int| 0 <= x < n.len() implies (#[trigger] n[x]).wf() by {
        if x < lo {
        } else if x < lo + g {
            assert(gs[x - lo].wf());
        } else {
            assert(free[x - lo - g + hi].wf());
        }
    }
    assert forall|x: int, y: int| 0 <= x < y < n.len() implies (#[trigger] n[x]).end_excl() < (
    #[trigger] n[y]).start@ by {
        if y < lo {
            assert(free[x].end_excl() < free[y].start@);
        } else if y < lo + g {
            if x < lo {
                assert(free[x].end_excl() <= free[lo - 1].end_excl()) by {
                    if x < lo - 1 {
                        assert(free[x].end_excl() < free[lo - 1].start@);
                        assert(free[lo - 1].wf());
                    }
                }
                assert(gs[0].start@ <= gs[y - lo].start@) by {
                    if y - lo > 0 {
                        assert(gs[0].end_excl() < gs[y - lo].start@);
                        assert(gs[0].wf());
                    }
                }
            } else {
                assert(gs[x - lo].end_excl() < gs[y - lo].start@);
            }
        } else {
            let fy = y - lo - g + hi;
            if x < lo {
                assert(free[x].end_excl() < free[fy].start@);
            } else if x < lo + g {
                assert(gs[x - lo].end_excl() <= gs[g - 1].end_excl()) by {
                    if x - lo < g - 1 {
                        assert(gs[x - lo].end_excl() < gs[g - 1].start@);
                        assert(gs[g - 1].wf());
                    }
                }
                assert(free[hi].start@ <= free[fy].start@) by {
                    if fy > hi {
                        assert(free[hi].end_excl() < free[fy].start@);
                        assert(free[hi].wf());
                    }
                }
            } else {
                let fx = x - lo - g + hi;
                assert(free[fx].end_excl() < free[fy].start@);
            }
        }
    }
    let mid = free.subrange(lo, hi);
    assert forall|b: int| covered(n, b) <==> ((covered(free, b) && !covered(mid, b)) || covered(gs, b)) by {
        if covered(n, b) {
            let x = choose|x: int| 0 <= x < n.len() && (#[trigger] n[x]).holds(b);
            if x < lo {
                assert(free[x].holds(b));
                if covered(mid, b) {
                    let k = choose|k: int| 0 <= k < mid.len() && (#[trigger] mid[k]).holds(b);
                    assert(mid[k] == free[lo + k]);
                    assert(free[x].end_excl() < free[lo + k].start@);
                }
            } else if x < lo + g {
                assert(gs[x - lo].holds(b));
            } else {
                let fx = x - lo - g + hi;
                assert(free[fx].holds(b));
                if covered(mid, b) {
                    let k = choose|k: int| 0 <= k < mid.len() && (#[trigger] mid[k]).holds(b);
                    assert(mid[k] == free[lo + k]);
                    assert(free[lo + k].end_excl() < free[fx].start@);
                }
            }
        }
        if covered(gs, b) {
            let k = choose|k: int| 0 <= k < gs.len() && (#[trigger] gs[k]).holds(b);
            assert(n[lo + k] == gs[k]);
        }
        if covered(free, b) && !covered(mid, b) {
            let k = choose|k: int| 0 <= k < free.len() && (#[trigger] free[k]).holds(b);
            if k < lo {
                assert(n[k] == free[k]);
            } else if k < hi {
                assert(mid[k - lo] == free[k]);
            } else {
                assert(n[k - hi + lo + g] == free[k]);
            }
        }
    }
}

/// The blocks held by the group at `i` are exactly the blocks covered by the
/// one-element range `i..i+1`.
pub proof fn lemma_covered_single(free: Seq<BlockGroup>, i: int, b: int)
    requires
        0 <= i < free.len(),
    ensures
        covered(free.subrange(i, i + 1), b) <==> free[i].holds(b),
        free[i].holds(b) ==> covered(free, b),
{
    let mid = free.subrange(i, i + 1);
    assert(mid[0] == free[i]);
}

/// The blocks covered by a single group are the blocks of that group.
pub proof fn lemma_covered_one(g: BlockGroup, b: int)
    ensures
        covered(seq![g], b) <==> g.holds(b),
{
    let s = seq![g];
    assert(s[0] == g);
}

/// The blocks covered by two groups are those of either group.
pub proof fn lemma_covered_two(g: BlockGroup, h: BlockGroup, b: int)
    ensures
        covered(seq![g, h], b) <==> g.holds(b) || h.holds(b),
{
    let s = seq![g, h];
    assert(s[0] == g);
    assert(s[1] == h);
}

/// No blocks are covered by an empty list.
pub proof fn lemma_covered_none(b: int)
    ensures
        !covered(Seq::<BlockGroup>::empty(), b),
{
}

/// The blocks covered by a list with one more group are those of the list and
/// those of the group.
pub proof fn lemma_covered_push(groups: Seq<BlockGroup>, g: BlockGroup, b: int)
    ensures
        covered(groups.push(g), b) <==> covered(groups, b) || g.holds(b),
{
    let n = groups.push(g);
    if covered(groups, b) {
        let k = choose|k: int| 0 <= k < groups.len() && (#[trigger] groups[k]).holds(b);
        assert(n[k] == groups[k]);
    }
    if g.holds(b) {
        assert(n[groups.len() as int] == g);
    }
    if covered(n, b) {
        let k = choose|k: int| 0 <= k < n.len() && (#[trigger] n[k]).holds(b);
        if k < groups.len() {
            assert(groups[k] == n[k]);
        }
    }
}

/// The blocks covered by a list without its first group are those covered by
/// the list, except those held only by the first group.
pub proof fn lemma_covered_drop_first(groups: Seq<BlockGroup>, b: int)
    requires
        groups.len() > 0,
    ensures
        covered(groups, b) <==> covered(groups.drop_first(), b) || groups[0].holds(b),
{
    let rest = groups.drop_first();
    if covered(groups, b) {
        let k = choose|k: int| 0 <= k < groups.len() && (#[trigger] groups[k]).holds(b);
        if k > 0 {
            assert(rest[k - 1] == groups[k]);
        }
    }
    if covered(rest, b) {
        let k = choose|k: int| 0 <= k < rest.len() && (#[trigger] rest[k]).holds(b);
        assert(groups[k + 1] == rest[k]);
    }
}

} // verus!
