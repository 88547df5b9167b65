//! Allocation of blocks on a block device.

use vstd::prelude::*;

use super::free_list::{
    blocks_of, covered, fits_between, groups_wf, lemma_covered_drop_first, lemma_covered_none,
    lemma_covered_one, lemma_covered_push, lemma_covered_single, lemma_covered_two, lemma_splice,
    splice,
};
use super::interface::BlockDevice;
use super::lba::{spec_counts_required_for, BlockGroup, LBA};

verus! {

/// Errors of the file system.
#[derive(Debug, Clone, Copy, PartialEq, Eq)]
pub enum FsError {
    /// The block device reported an error
    BlockDevice,
    /// Block device too small. Max block count is `.0`, required: `.1`
    BlockDeviceToSmall(u64, u64),
    /// Block device is full. Failed to allocate `.0` blocks
    BlockDeviceFull(u64),
    /// Failed to find `.0` consecutive free blocks
    NoConsecutiveFreeBlocks(u64),
    /// Override check failed
    OverrideCheck,
    /// Write allocator failed to allocate blocks for free list
    WriteAllocatorFreeList,
    /// Main header and backup header did not match
    HeaderMismatch,
    /// Header version is `.0` but the fs is at another version
    HeaderVersionMismatch([u8; 4]),
    /// Header did not start with the magic string "WasabiFs"
    HeaderMagicInvalid,
    /// The main header does not include the transient block
    HeaderWithoutTransient,
    /// The file sytem is not fully initialized
    NotInitialized,
    /// Failed to compare exchange block to often. Giving up
    CompareExchangeFailedToOften,
    /// Fs is already mounted by someone else
    AlreadyMounted,
    /// Malformed string encountered. String did not match specified length
    MalformedStringLength,
    /// Malformed string encountered. String is not valid utf8
    MalformedStringUtf8,
    /// String length must fit within a u32
    StringToLong,
    /// Out of Memory
    Oom,
    /// Read size of 0 bytes is not allowed
    ReadZeroBytes,
}

/// The sum of the block counts of the groups.
pub open spec fn sum_counts(groups: Seq<BlockGroup>) -> nat
    decreases groups.len(),
{
    if groups.len() == 0 {
        0
    } else {
        (sum_counts(groups.drop_last()) + groups.last().count) as nat
    }
}

/// The groups are well formed and no two of them share a block.
pub open spec fn pairwise_disjoint(groups: Seq<BlockGroup>) -> bool {
    &&& forall|i: int| 0 <= i < groups.len() ==> (#[trigger] groups[i]).wf()
    &&& forall|i: int, j: int, b: int|
        0 <= i < groups.len() && 0 <= j < groups.len() && i != j && #[trigger] groups[i].holds(b)
            ==> !#[trigger] groups[j].holds(b)
}

/// The index of the group that [BlockAllocator::allocate_group] takes `size`
/// blocks from: the first of the groups whose count is the smallest count of
/// at least `size`.
pub open spec fn is_best_fit(free: Seq<BlockGroup>, size: u64, i: int) -> bool {
    &&& 0 <= i < free.len()
    &&& free[i].count >= size
    &&& forall|j: int| 0 <= j < i && #[trigger] free[j].count >= size ==> free[j].count > free[i].count
    &&& forall|j: int| i < j < free.len() && #[trigger] free[j].count >= size ==> free[j].count >= free[i].count
}

/// The free list after taking `size` blocks from the start of group `i`.
pub open spec fn take_from(free: Seq<BlockGroup>, size: u64, i: int) -> Seq<BlockGroup> {
    if free[i].count == size {
        free.remove(i)
    } else {
        free.update(
            i,
            BlockGroup { start: LBA::at((free[i].start@ + size) as u64), count: (free[i].count - size) as u64 },
        )
    }
}

/// At most one group is the best fit for a size.
pub proof fn lemma_best_fit_unique(free: Seq<BlockGroup>, size: u64, i: int, j: int)
    requires
        is_best_fit(free, size, i),
        is_best_fit(free, size, j),
    ensures
        i == j,
{
    if i < j {
        assert(free[i].count > free[j].count);
    } else if j < i {
        assert(free[j].count > free[i].count);
    }
}

/// The group of `free` that is the best fit for `size` blocks, see
/// [is_best_fit], if a group holds that many.
pub open spec fn best_fit(free: Seq<BlockGroup>, size: u64) -> Option<int> {
    if exists|i: int| is_best_fit(free, size, i) {
        Some(choose|i: int| is_best_fit(free, size, i))
    } else {
        None
    }
}

/// The largest power of 2 that is at most `count`, found by doubling `size`
/// from 1.
pub open spec fn spec_start_size(count: u64, size: u64) -> u64
    decreases count - size,
{
    if 1 <= size && size <= count / 2 {
        spec_start_size(count, (size * 2) as u64)
    } else {
        size
    }
}

/// The groups that taking `remaining` blocks from `free` gives, in order,
/// and the free list that is left: groups of `size` blocks are taken, each
/// the best fit, while at least `size` blocks remain and a free group holds
/// that many; then the size is halved.
pub open spec fn spec_allocation(free: Seq<BlockGroup>, remaining: u64, size: u64) -> (
    Seq<BlockGroup>,
    Seq<BlockGroup>,
)
    decreases remaining, size,
{
    if remaining == 0 || size == 0 {
        (Seq::empty(), free)
    } else if remaining < size {
        spec_allocation(free, remaining, size / 2)
    } else {
        match best_fit(free, size) {
            Some(i) => {
                let next = spec_allocation(take_from(free, size, i), (remaining - size) as u64, size);
                (seq![BlockGroup { start: free[i].start, count: size }] + next.0, next.1)
            },
            None => spec_allocation(free, remaining, size / 2),
        }
    }
}

/// A list of [BlockGroup]s
#[derive(Clone)]
pub struct BlockGroupList {
    /// the groups of the list
    pub groups: Vec<BlockGroup>,
}

impl BlockGroupList {
    /// An empty list.
    pub fn new() -> (r: Self)
        ensures
            r.groups@.len() == 0,
    {
        Self { groups: Vec::new() }
    }

    /// The total number of blocks in the list.
    pub fn block_count(&self) -> (r: u64)
        requires
            sum_counts(self.groups@) <= u64::MAX,
        ensures
            r == sum_counts(self.groups@),
    {
        let mut sum: u64 = 0;
        let mut i: usize = 0;
        while i < self.groups.len()
            invariant
                i <= self.groups@.len(),
                sum == sum_counts(self.groups@.take(i as int)),
                sum_counts(self.groups@) <= u64::MAX,
            decreases self.groups@.len() - i,
        {
            proof {
                assert(self.groups@.take(i + 1).drop_last() =~= self.groups@.take(i as int));
                lemma_sum_counts_prefix(self.groups@, i + 1);
            }
            sum = sum + self.groups[i].count;
            i += 1;
        }
        proof {
            assert(self.groups@.take(i as int) =~= self.groups@);
        }
        sum
    }
}

/// The sum over a prefix is at most the sum over the whole list.
pub proof fn lemma_sum_counts_prefix(groups: Seq<BlockGroup>, k: int)
    requires
        0 <= k <= groups.len(),
    ensures
        sum_counts(groups.take(k)) <= sum_counts(groups),
    decreases groups.len(),
{
    if k < groups.len() {
        assert(groups.drop_last().take(k) =~= groups.take(k));
        lemma_sum_counts_prefix(groups.drop_last(), k);
    } else {
        assert(groups.take(k) =~= groups);
    }
}

/// Keeps track of the blocks of a device that are not in use.
#[derive(Clone)]
pub struct BlockAllocator {
    /// Ranges of blocks that are currently unused
    free: Vec<BlockGroup>,
    /// The first block of the on disk structure that represents this
    /// allocators data
    on_disk: Option<LBA>,
    /// all blocks invovled in storing this allocator data
    self_on_disk: Vec<LBA>,
    /// `true` if this is different from the on device version
    dirty: bool,
}

impl BlockAllocator {
    /// The free groups, sorted by their start.
    pub closed spec fn free_groups(&self) -> Seq<BlockGroup> {
        self.free@
    }

    /// Whether there are changes that have not been saved to the device.
    pub closed spec fn spec_dirty(&self) -> bool {
        self.dirty
    }

    /// The blocks that store this allocator on the device.
    pub closed spec fn spec_self_on_disk(&self) -> Seq<LBA> {
        self.self_on_disk@
    }

    /// The first block of this allocator on the device, if it was stored.
    pub closed spec fn spec_on_disk(&self) -> Option<LBA> {
        self.on_disk
    }

    /// The free list is sorted, its groups are well formed, and there is at
    /// least one used block between two free groups.
    pub open spec fn inv(&self) -> bool {
        groups_wf(self.free_groups())
    }

    /// The set of free blocks.
    pub open spec fn free_blocks(&self) -> Set<int> {
        blocks_of(self.free_groups())
    }

    /// `true` if there are changes that have not been saved to the device
    pub fn is_dirty(&self) -> (r: bool)
        ensures
            r == self.spec_dirty(),
    {
        self.dirty
    }

    /// Creates a new [BlockAllocator] that is free, except for `inital_usage`.
    ///
    /// All blocks below `max_lba` are free, except those in `inital_usage`,
    /// which must lie below `max_lba` and must not repeat.
    pub fn empty(inital_usage: &[LBA], max_lba: LBA) -> (r: Self)
        requires
            max_lba@ > 0,
            forall|i: int| 0 <= i < inital_usage@.len() ==> (#[trigger] inital_usage@[i])@ < max_lba@,
            forall|i: int, j: int|
                0 <= i < j < inital_usage@.len() ==> (#[trigger] inital_usage@[i])@ != (
                #[trigger] inital_usage@[j])@,
        ensures
            r.inv(),
            r.spec_dirty(),
            r.spec_on_disk() is None,
            r.spec_self_on_disk().len() == 0,
            forall|b: int|
                r.free_blocks().contains(b) <==> (0 <= b < max_lba@ && !(exists|i: int|
                    0 <= i < inital_usage@.len() && (#[trigger] inital_usage@[i])@ == b)),
    {
        let zero = LBA::new(0).unwrap();
        let max = max_lba.get();
        let mut this = Self {
            free: Vec::new(),
            on_disk: None,
            self_on_disk: Vec::new(),
            dirty: true,
        };
        this.free.push(BlockGroup::with_count(zero, max));
        proof {
            assert forall|b: int| covered(this.free@, b) <==> 0 <= b < max by {
                lemma_covered_one(this.free@[0], b);
                assert(this.free@ =~= seq![this.free@[0]]);
            }
        }
        let mut k: usize = 0;
        while k < inital_usage.len()
            invariant
                k <= inital_usage@.len(),
                this.inv(),
                this.dirty,
                this.on_disk is None,
                this.self_on_disk@.len() == 0,
                forall|i: int| 0 <= i < inital_usage@.len() ==> (#[trigger] inital_usage@[i])@ < max_lba@,
                forall|i: int, j: int|
                    0 <= i < j < inital_usage@.len() ==> (#[trigger] inital_usage@[i])@ != (
                    #[trigger] inital_usage@[j])@,
                forall|b: int|
                    this.free_blocks().contains(b) <==> (0 <= b < max_lba@ && !(exists|i: int|
                        0 <= i < k && (#[trigger] inital_usage@[i])@ == b)),
            decreases inital_usage@.len() - k,
        {
            let block = inital_usage[k];
            proof {
                assert(this.free_blocks().contains(block@ as int)) by {
                    if exists|i: int| 0 <= i < k && (#[trigger] inital_usage@[i])@ == block@ {
                        let i = choose|i: int| 0 <= i < k && (#[trigger] inital_usage@[i])@ == block@;
                        assert(inital_usage@[i]@ != inital_usage@[k as int]@);
                    }
                }
            }
            let res = this.mark_used(block);
            assert(res is Ok);
            proof {
                assert forall|b: int|
                    this.free_blocks().contains(b) <==> (0 <= b < max_lba@ && !(exists|i: int|
                        0 <= i < k + 1 && (#[trigger] inital_usage@[i])@ == b)) by {
                    if exists|i: int| 0 <= i < k + 1 && (#[trigger] inital_usage@[i])@ == b {
                        let i = choose|i: int| 0 <= i < k + 1 && (#[trigger] inital_usage@[i])@ == b;
                        if i < k {
                        }
                    }
                    if b == block@ {
                        assert(inital_usage@[k as int]@ == b);
                    }
                }
            }
            k += 1;
        }
        this
    }

    /// Marks `lba` as used.
    ///
    /// Returns an error if `lba` is not free.
    pub fn mark_used(&mut self, lba: LBA) -> (r: Result<(), ()>)
        requires
            old(self).inv(),
        ensures
            final(self).inv(),
            r is Ok <==> old(self).free_blocks().contains(lba@ as int),
            final(self).free_blocks() == old(self).free_blocks().remove(lba@ as int),
            final(self).spec_dirty() == old(self).spec_dirty(),
            final(self).spec_on_disk() == old(self).spec_on_disk(),
            final(self).spec_self_on_disk() == old(self).spec_self_on_disk(),
    {
        let ghost old_free = self.free@;
        let mut idx: usize = 0;
        while idx < self.free.len()
            invariant
                idx <= self.free@.len(),
                self.free@ == old_free,
                groups_wf(old_free),
                forall|k: int| 0 <= k < idx ==> !(#[trigger] old_free[k]).holds(lba@ as int),
            ensures
                idx <= self.free@.len(),
                self.free@ == old_free,
                forall|k: int| 0 <= k < idx ==> !(#[trigger] old_free[k]).holds(lba@ as int),
                idx < self.free@.len() ==> old_free[idx as int].holds(lba@ as int),
            decreases self.free@.len() - idx,
        {
            if self.free[idx].contains(lba) {
                break;
            }
            idx += 1;
        }
        if idx == self.free.len() {
            proof {
                assert(!covered(old_free, lba@ as int));
                assert(self.free_blocks() =~= old(self).free_blocks().remove(lba@ as int));
            }
            return Err(());
        }
        let group = self.free[idx];
        let ghost i = idx as int;
        let ghost gs: Seq<BlockGroup>;
        let start = group.start.get();
        let target = lba.get();
        if target == start {
            if group.count == 1 {
                self.free.remove(idx);
                proof {
                    gs = Seq::empty();
                }
            } else {
                let shrunk = BlockGroup { start: group.start + 1, count: group.count - 1 };
                self.free.set(idx, shrunk);
                proof {
                    gs = seq![shrunk];
                }
            }
        } else if target == group.end().get() {
            let shrunk = BlockGroup { start: group.start, count: group.count - 1 };
            self.free.set(idx, shrunk);
            proof {
                gs = seq![shrunk];
            }
        } else {
            let end = group.end();
            let first = BlockGroup { start: group.start, count: target - start };
            let second = BlockGroup::new(lba + 1, end);
            self.free.set(idx, first);
            self.free.insert(idx + 1, second);
            proof {
                gs = seq![first, second];
            }
        }
        proof {
            assert(self.free@ =~= splice(old_free, i, i + 1, gs));
            lemma_splice(old_free, i, i + 1, gs);
            assert forall|b: int| covered(self.free@, b) <==> (covered(old_free, b) && b != lba@) by {
                lemma_covered_single(old_free, i, b);
                if gs.len() == 1 {
                    lemma_covered_one(gs[0], b);
                    assert(gs =~= seq![gs[0]]);
                } else if gs.len() == 2 {
                    lemma_covered_two(gs[0], gs[1], b);
                    assert(gs =~= seq![gs[0], gs[1]]);
                }
                if covered(old_free, b) && !group.holds(b) {
                    let k = choose|k: int| 0 <= k < old_free.len() && (#[trigger] old_free[k]).holds(b);
                    assert(k != i);
                }
            }
            assert(self.free_blocks() =~= old(self).free_blocks().remove(lba@ as int));
        }
        Ok(())
    }
}


impl BlockAllocator {
    /// Allocate a contigious group
    ///
    /// The group is taken from the start of the first of the smallest free
    /// groups that hold at least `size` blocks.
    /// Where possible [Self::allocate] should be used, because it
    /// is better at avoiding fragmentation.
    pub fn allocate_group(&mut self, size: u64) -> (r: Result<BlockGroup, FsError>)
        requires
            old(self).inv(),
            size >= 1,
        ensures
            final(self).inv(),
            final(self).spec_on_disk() == old(self).spec_on_disk(),
            final(self).spec_self_on_disk() == old(self).spec_self_on_disk(),
            r is Err <==> forall|j: int|
                0 <= j < old(self).free_groups().len() ==> #[trigger] old(self).free_groups()[j].count
                    < size,
            r matches Err(e) ==> e == FsError::NoConsecutiveFreeBlocks(size) && *final(self) == *old(
                self,
            ),
            r matches Ok(g) ==> {
                &&& g.wf()
                &&& g.count == size
                &&& exists|i: int|
                    is_best_fit(old(self).free_groups(), size, i) && g.start == old(
                        self,
                    ).free_groups()[i].start && final(self).free_groups() == take_from(
                        old(self).free_groups(),
                        size,
                        i,
                    )
                &&& forall|b: int| g.holds(b) ==> old(self).free_blocks().contains(b)
                &&& final(self).free_blocks() == old(self).free_blocks().difference(g.blocks())
                &&& final(self).spec_dirty()
            },
    {
        let ghost old_free = self.free@;
        let mut best: usize = usize::MAX;
        let mut best_rem: u64 = u64::MAX;
        let mut i: usize = 0;
        while i < self.free.len()
            invariant
                i <= self.free@.len(),
                self.free@ == old_free,
                groups_wf(old_free),
                size >= 1,
                best == usize::MAX ==> best_rem == u64::MAX && forall|j: int|
                    0 <= j < i ==> #[trigger] old_free[j].count < size,
                best != usize::MAX ==> {
                    &&& best < i
                    &&& old_free[best as int].count >= size
                    &&& best_rem == old_free[best as int].count - size
                    &&& forall|j: int|
                        0 <= j < best && #[trigger] old_free[j].count >= size ==> old_free[j].count
                            > old_free[best as int].count
                    &&& forall|j: int|
                        best < j < i && #[trigger] old_free[j].count >= size ==> old_free[j].count
                            >= old_free[best as int].count
                },
            decreases self.free@.len() - i,
        {
            let count = self.free[i].count();
            if count >= size {
                let rem = count - size;
                if rem < best_rem {
                    best_rem = rem;
                    best = i;
                }
            }
            i += 1;
        }
        if best == usize::MAX {
            return Err(FsError::NoConsecutiveFreeBlocks(size));
        }
        proof {
            assert(is_best_fit(old_free, size, best as int));
        }
        self.dirty = true;
        let group = self.free[best];
        let ghost b = best as int;
        if best_rem == 0 {
            let removed = self.free.remove(best);
            proof {
                assert(self.free@ =~= splice(old_free, b, b + 1, Seq::empty()));
                lemma_splice(old_free, b, b + 1, Seq::empty());
                self.lemma_took(old_free, b, group, Seq::empty());
            }
            return Ok(removed);
        }
        let result = BlockGroup { start: group.start, count: size };
        let rest = BlockGroup { start: group.start + size, count: best_rem };
        self.free.set(best, rest);
        proof {
            assert(self.free@ =~= splice(old_free, b, b + 1, seq![rest]));
            assert(seq![rest][0] == rest);
            lemma_splice(old_free, b, b + 1, seq![rest]);
            self.lemma_took(old_free, b, result, seq![rest]);
            assert(self.free@ =~= take_from(old_free, size, b));
        }
        Ok(result)
    }

    /// After replacing the free group at `i` by the groups `gs`, the free
    /// blocks are the old ones without those of `taken`, where `taken` and `gs`
    /// split the old group.
    proof fn lemma_took(&self, old_free: Seq<BlockGroup>, i: int, taken: BlockGroup, gs: Seq<BlockGroup>)
        requires
            groups_wf(old_free),
            0 <= i < old_free.len(),
            gs.len() <= 1,
            self.free@ == splice(old_free, i, i + 1, gs),
            forall|b: int| covered(self.free@, b) <==> ((covered(old_free, b) && !covered(old_free.subrange(i, i + 1), b)) || covered(gs, b)),
            forall|b: int| #[trigger] old_free[i].holds(b) <==> (taken.holds(b) || covered(gs, b)),
            forall|b: int| taken.holds(b) ==> !covered(gs, b),
        ensures
            forall|b: int| taken.holds(b) ==> blocks_of(old_free).contains(b),
            self.free_blocks() == blocks_of(old_free).difference(taken.blocks()),
    {
        assert forall|b: int| taken.holds(b) implies blocks_of(old_free).contains(b) by {
            lemma_covered_single(old_free, i, b);
        }
        assert forall|b: int| covered(self.free@, b) <==> (covered(old_free, b) && !taken.holds(b)) by {
            lemma_covered_single(old_free, i, b);
            if gs.len() == 1 {
                lemma_covered_one(gs[0], b);
                assert(gs =~= seq![gs[0]]);
            }
            if covered(old_free, b) && !old_free[i].holds(b) {
                let k = choose|k: int| 0 <= k < old_free.len() && (#[trigger] old_free[k]).holds(b);
                assert(k != i);
            }
            if covered(gs, b) {
                assert(old_free[i].holds(b));
                assert(covered(old_free, b));
            }
        }
        assert(self.free_blocks() =~= blocks_of(old_free).difference(taken.blocks()));
    }

    /// Allocate a single block.
    pub fn allocate_block(&mut self) -> (r: Result<LBA, FsError>)
        requires
            old(self).inv(),
        ensures
            final(self).inv(),
            r is Err <==> old(self).free_groups().len() == 0,
            r matches Err(e) ==> e == FsError::NoConsecutiveFreeBlocks(1) && *final(self) == *old(self),
            r matches Ok(lba) ==> {
                &&& old(self).free_blocks().contains(lba@ as int)
                &&& final(self).free_blocks() == old(self).free_blocks().remove(lba@ as int)
                &&& final(self).spec_dirty()
            },
    {
        let r = self.allocate_group(1);
        match r {
            Ok(group) => {
                proof {
                    assert(group.blocks() =~= set![group.start@ as int]);
                    assert(self.free_blocks() =~= old(self).free_blocks().remove(group.start@ as int));
                    if old(self).free_groups().len() == 0 {
                        assert(false);
                    }
                }
                Ok(group.start)
            },
            Err(e) => {
                proof {
                    if old(self).free_groups().len() > 0 {
                        assert(old(self).free_groups()[0].wf());
                    }
                }
                Err(e)
            },
        }
    }
}


impl BlockAllocator {
    /// Returns the blocks of `free` to the free list.
    ///
    /// The group is merged with the free groups directly before and after it,
    /// so that two free groups are always separated by at least one used block.
    pub fn free_group(&mut self, free: BlockGroup)
        requires
            old(self).inv(),
            free.wf(),
            forall|b: int| free.holds(b) ==> !old(self).free_blocks().contains(b),
        ensures
            final(self).inv(),
            final(self).free_blocks() == old(self).free_blocks().union(free.blocks()),
            final(self).spec_dirty(),
            final(self).spec_on_disk() == old(self).spec_on_disk(),
            final(self).spec_self_on_disk() == old(self).spec_self_on_disk(),
    {
        self.dirty = true;
        let ghost old_free = self.free@;
        let free_start = free.start.get();
        let mut i: usize = 0;
        while i < self.free.len()
            invariant
                i <= self.free@.len(),
                self.free@ == old_free,
                groups_wf(old_free),
                free_start == free.start@,
                forall|k: int| 0 <= k < i ==> (#[trigger] old_free[k]).start@ <= free_start,
            ensures
                i <= self.free@.len(),
                self.free@ == old_free,
                forall|k: int| 0 <= k < i ==> (#[trigger] old_free[k]).start@ <= free_start,
                i < self.free@.len() ==> old_free[i as int].start@ > free_start,
            decreases self.free@.len() - i,
        {
            if self.free[i].start.get() > free_start {
                break;
            }
            i += 1;
        }
        let ghost ii = i as int;
        proof {
            if i > 0 {
                let p = old_free[ii - 1];
                assert(p.start@ <= free.start@);
                if p.end_excl() > free.start@ {
                    assert(p.holds(free.start@ as int));
                    lemma_covered_single(old_free, ii - 1, free.start@ as int);
                    assert(free.holds(free.start@ as int));
                }
            }
            if i < old_free.len() {
                let n = old_free[ii];
                if free.end_excl() > n.start@ {
                    assert(free.holds(n.start@ as int));
                    lemma_covered_single(old_free, ii, n.start@ as int);
                }
            }
        }
        let merge_prev = i > 0 && self.free[i - 1].start.get() + self.free[i - 1].count == free_start;
        let merge_next = i < self.free.len() && free_start + free.count == self.free[i].start.get();
        let ghost lo: int;
        let ghost hi: int;
        let ghost gs: Seq<BlockGroup>;
        if merge_prev && merge_next {
            let prev = self.free[i - 1];
            let next = self.free[i];
            let merged = BlockGroup { start: prev.start, count: prev.count + free.count + next.count };
            self.free.set(i - 1, merged);
            self.free.remove(i);
            proof {
                lo = ii - 1;
                hi = ii + 1;
                gs = seq![merged];
            }
        } else if merge_prev {
            let prev = self.free[i - 1];
            let merged = BlockGroup { start: prev.start, count: prev.count + free.count };
            self.free.set(i - 1, merged);
            proof {
                lo = ii - 1;
                hi = ii;
                gs = seq![merged];
            }
        } else if merge_next {
            let next = self.free[i];
            let merged = BlockGroup { start: free.start, count: free.count + next.count };
            self.free.set(i, merged);
            proof {
                lo = ii;
                hi = ii + 1;
                gs = seq![merged];
            }
        } else {
            self.free.insert(i, free);
            proof {
                lo = ii;
                hi = ii;
                gs = seq![free];
            }
        }
        proof {
            assert(gs[0] == gs[0]);
            assert(self.free@ =~= splice(old_free, lo, hi, gs));
            assert(gs.len() == 1);
            lemma_splice(old_free, lo, hi, gs);
            assert forall|b: int| covered(self.free@, b) <==> (covered(old_free, b) || free.holds(b)) by {
                lemma_covered_one(gs[0], b);
                assert(gs =~= seq![gs[0]]);
                let mid = old_free.subrange(lo, hi);
                if covered(mid, b) {
                    let k = choose|k: int| 0 <= k < mid.len() && (#[trigger] mid[k]).holds(b);
                    assert(mid[k] == old_free[lo + k]);
                    lemma_covered_single(old_free, lo + k, b);
                }
                if hi > lo {
                    lemma_covered_single(old_free, lo, b);
                    assert(mid[0] == old_free[lo]);
                }
                if hi > lo + 1 {
                    lemma_covered_single(old_free, lo + 1, b);
                    assert(mid[1] == old_free[lo + 1]);
                }
            }
            assert(self.free_blocks() =~= old(self).free_blocks().union(free.blocks()));
        }
    }

    /// Returns a single block to the free list.
    pub fn free_block(&mut self, block: LBA)
        requires
            old(self).inv(),
            !old(self).free_blocks().contains(block@ as int),
        ensures
            final(self).inv(),
            final(self).free_blocks() == old(self).free_blocks().insert(block@ as int),
            final(self).spec_dirty(),
            final(self).spec_on_disk() == old(self).spec_on_disk(),
            final(self).spec_self_on_disk() == old(self).spec_self_on_disk(),
    {
        let b = block.get();
        let group = BlockGroup { start: block, count: 1 };
        self.free_group(group);
        proof {
            assert(group.blocks() =~= set![b as int]);
            assert(self.free_blocks() =~= old(self).free_blocks().insert(block@ as int));
        }
    }
}


/// Adding a group to a list adds its count to the sum of the counts.
pub proof fn lemma_sum_counts_push(groups: Seq<BlockGroup>, g: BlockGroup)
    ensures
        sum_counts(groups.push(g)) == sum_counts(groups) + g.count,
{
    assert(groups.push(g).drop_last() =~= groups);
}

impl BlockAllocator {
    /// Allocate `count` [LBA]s
    ///
    /// This tries to reduce fragmentation by prefering [BlockGroup]s
    /// with sizes that are powers of 2: it starts with the largest power of 2
    /// that is at most `count` and halves the group size whenever the
    /// remaining count is smaller or no group of that size is free.
    pub fn allocate(&mut self, count: u64) -> (r: Result<BlockGroupList, FsError>)
        requires
            old(self).inv(),
            count >= 1,
        ensures
            final(self).inv(),
            final(self).spec_on_disk() == old(self).spec_on_disk(),
            final(self).spec_self_on_disk() == old(self).spec_self_on_disk(),
            old(self).free_blocks().finite(),
            r is Err <==> old(self).free_blocks().len() < count,
            r matches Err(e) ==> e == FsError::BlockDeviceFull(count) && final(self).free_blocks()
                == old(self).free_blocks(),
            r matches Ok(list) ==> {
                &&& list.groups@ == spec_allocation(
                    old(self).free_groups(),
                    count,
                    spec_start_size(count, 1),
                ).0
                &&& final(self).free_groups() == spec_allocation(
                    old(self).free_groups(),
                    count,
                    spec_start_size(count, 1),
                ).1
                &&& sum_counts(list.groups@) == count
                &&& final(self).free_groups().len() <= old(self).free_groups().len()
                &&& pairwise_disjoint(list.groups@)
                &&& forall|b: int| covered(list.groups@, b) ==> old(self).free_blocks().contains(b)
                &&& final(self).free_blocks() == old(self).free_blocks().difference(
                    blocks_of(list.groups@),
                )
                &&& final(self).spec_dirty()
            },
    {
        let ghost old_blocks = self.free_blocks();
        proof {
            self.lemma_free_blocks_finite();
        }
        let mut list = BlockGroupList::new();
        let mut remaining_size = count;
        let mut group_size: u64 = 1;
        while group_size <= count / 2
            invariant
                1 <= group_size <= count,
                spec_start_size(count, group_size) == spec_start_size(count, 1),
            decreases count - group_size,
        {
            group_size = group_size * 2;
        }
        let ghost start = group_size;
        proof {
            assert(list.groups@ =~= Seq::<BlockGroup>::empty());
            assert forall|b: int| !covered(list.groups@, b) by {
                lemma_covered_none(b);
            }
        }
        while remaining_size > 0
            invariant
                self.inv(),
                self.spec_on_disk() == old(self).spec_on_disk(),
                self.spec_self_on_disk() == old(self).spec_self_on_disk(),
                old_blocks == old(self).free_blocks(),
                self.free_groups().len() <= old(self).free_groups().len(),
                pairwise_disjoint(list.groups@),
                sum_counts(list.groups@) + remaining_size == count,
                forall|b: int| covered(list.groups@, b) ==> old_blocks.contains(b),
                self.free_blocks() == old_blocks.difference(blocks_of(list.groups@)),
                old_blocks.finite(),
                remaining_size > 0 && group_size == 0 ==> self.free_groups().len() == 0,
                start == spec_start_size(count, 1),
                list.groups@ + spec_allocation(self.free_groups(), remaining_size, group_size).0
                    == spec_allocation(old(self).free_groups(), count, start).0,
                spec_allocation(self.free_groups(), remaining_size, group_size).1
                    == spec_allocation(old(self).free_groups(), count, start).1,
            decreases remaining_size, group_size,
        {
            if group_size == 0 {
                proof {
                    assert forall|b: int| covered(list.groups@, b) implies !self.free_blocks().contains(b) by {
                        assert(blocks_of(list.groups@).contains(b));
                    }
                    assert(old_blocks =~= blocks_of(list.groups@)) by {
                        assert forall|b: int| old_blocks.contains(b) implies covered(list.groups@, b) by {
                            if !covered(list.groups@, b) {
                                assert(self.free_blocks().contains(b));
                                let k = choose|k: int|
                                    0 <= k < self.free_groups().len() && (#[trigger] self.free_groups()[k]).holds(b);
                            }
                        }
                    }
                    lemma_blocks_card(list.groups@);
                }
                self.free(list);
                proof {
                    assert(self.free_blocks() =~= old_blocks);
                }
                return Err(FsError::BlockDeviceFull(count));
            }
            if remaining_size < group_size {
                group_size = group_size / 2;
                continue;
            }
            let ghost before = list.groups@;
            let ghost pre = self.free_blocks();
            let ghost free_before = self.free_groups();
            match self.allocate_group(group_size) {
                Ok(group) => {
                    list.groups.push(group);
                    proof {
                        let i = choose|i: int|
                            is_best_fit(free_before, group_size, i) && group.start == free_before[i].start
                                && self.free_groups() == take_from(free_before, group_size, i);
                        let c = choose|c: int| is_best_fit(free_before, group_size, c);
                        lemma_best_fit_unique(free_before, group_size, i, c);
                        assert(best_fit(free_before, group_size) == Some(i));
                        assert(group == BlockGroup { start: free_before[i].start, count: group_size });
                        let next = spec_allocation(
                            self.free_groups(),
                            (remaining_size - group_size) as u64,
                            group_size,
                        );
                        assert(spec_allocation(free_before, remaining_size, group_size).0 == seq![group]
                            + next.0);
                        assert(list.groups@ + next.0 =~= before + (seq![group] + next.0));
                    }
                    proof {
                        assert forall|b: int| group.holds(b) implies pre.contains(b) && !covered(before, b) by {
                            assert(!blocks_of(before).contains(b));
                        }
                        assert forall|b: int| covered(list.groups@, b) implies old_blocks.contains(b) by {
                            lemma_covered_push(before, group, b);
                        }
                        assert forall|b: int|
                            self.free_blocks().contains(b) <==> old_blocks.difference(blocks_of(list.groups@)).contains(b) by {
                            lemma_covered_push(before, group, b);
                            assert(self.free_blocks().contains(b) <==> (pre.contains(b) && !group.blocks().contains(b)));
                            assert(pre.contains(b) <==> (old_blocks.contains(b) && !blocks_of(before).contains(b)));
                        }
                        assert(self.free_blocks() =~= old_blocks.difference(blocks_of(list.groups@)));
                        lemma_sum_counts_push(before, group);
                        assert forall|b: int|
                            covered(list.groups@, b) <==> covered(before, b) || group.holds(b) by {
                            lemma_covered_push(before, group, b);
                        }
                        let n = list.groups@;
                        assert forall|x: int, y: int, b: int|
                            0 <= x < n.len() && 0 <= y < n.len() && x != y && #[trigger] n[x].holds(b)
                                implies !#[trigger] n[y].holds(b) by {
                            if x == before.len() {
                                assert(before[y] == n[y]);
                                assert(n[x] == group);
                                assert(!covered(before, b));
                                if before[y].holds(b) {
                                    assert(covered(before, b));
                                }
                            } else if y == before.len() {
                                assert(before[x] == n[x]);
                                assert(n[y] == group);
                                assert(covered(before, b));
                                assert(blocks_of(before).contains(b));
                            } else {
                                assert(before[x] == n[x] && before[y] == n[y]);
                            }
                        }
                        assert forall|x: int| 0 <= x < n.len() implies (#[trigger] n[x]).wf() by {
                            if x < before.len() {
                                assert(before[x] == n[x]);
                            }
                        }
                    }
                    remaining_size = remaining_size - group_size;
                },
                Err(_) => {
                    proof {
                        assert(best_fit(free_before, group_size) is None);
                        if group_size == 1 {
                            if self.free_groups().len() > 0 {
                                assert(self.free_groups()[0].wf());
                            }
                        }
                    }
                    group_size = group_size / 2;
                    continue;
                },
            }
        }
        self.dirty = true;
        proof {
            assert(list.groups@ + Seq::<BlockGroup>::empty() =~= list.groups@);
            assert(self.free_blocks() =~= old_blocks.difference(blocks_of(list.groups@)));
            lemma_blocks_card(list.groups@);
            assert(blocks_of(list.groups@).subset_of(old_blocks));
            vstd::set_lib::lemma_len_subset(blocks_of(list.groups@), old_blocks);
        }
        Ok(list)
    }

    /// Returns all groups of `list` to the free list, see [Self::free_group].
    pub fn free(&mut self, list: BlockGroupList)
        requires
            old(self).inv(),
            pairwise_disjoint(list.groups@),
            forall|b: int| covered(list.groups@, b) ==> !old(self).free_blocks().contains(b),
        ensures
            final(self).inv(),
            final(self).free_blocks() == old(self).free_blocks().union(blocks_of(list.groups@)),
            final(self).spec_dirty() == (old(self).spec_dirty() || list.groups@.len() > 0),
            final(self).spec_on_disk() == old(self).spec_on_disk(),
            final(self).spec_self_on_disk() == old(self).spec_self_on_disk(),
    {
        let ghost start = self.free_blocks();
        let groups = list.groups;
        let mut k: usize = 0;
        while k < groups.len()
            invariant
                k <= groups@.len(),
                self.inv(),
                pairwise_disjoint(groups@),
                self.spec_dirty() == (old(self).spec_dirty() || k > 0),
                self.spec_on_disk() == old(self).spec_on_disk(),
                self.spec_self_on_disk() == old(self).spec_self_on_disk(),
                forall|b: int| covered(groups@, b) ==> !start.contains(b),
                self.free_blocks() == start.union(blocks_of(groups@.take(k as int))),
            decreases groups@.len() - k,
        {
            let g = groups[k];
            let ghost before = self.free_blocks();
            proof {
                assert forall|b: int| g.holds(b) implies !self.free_blocks().contains(b) by {
                    assert(groups@[k as int].holds(b));
                    assert(covered(groups@, b));
                    assert(!start.contains(b));
                    if blocks_of(groups@.take(k as int)).contains(b) {
                        let x = choose|x: int|
                            0 <= x < k && (#[trigger] groups@.take(k as int)[x]).holds(b);
                        assert(groups@[x] == groups@.take(k as int)[x]);
                        assert(groups@[x].holds(b));
                        assert(!groups@[k as int].holds(b));
                    }
                }
            }
            self.free_group(g);
            proof {
                assert(groups@.take(k + 1) =~= groups@.take(k as int).push(g));
                assert forall|b: int|
                    self.free_blocks().contains(b) <==> start.union(blocks_of(groups@.take(k + 1))).contains(b) by {
                    lemma_covered_push(groups@.take(k as int), g, b);
                    assert(self.free_blocks().contains(b) <==> (before.contains(b) || g.blocks().contains(b)));
                }
                assert(self.free_blocks() =~= start.union(blocks_of(groups@.take(k + 1))));
            }
            k += 1;
        }
        proof {
            assert(groups@.take(k as int) =~= groups@);
            assert(self.free_blocks() =~= start.union(blocks_of(groups@)));
        }
    }

    /// Check that the internal assumptions of this data structure hold
    ///
    /// # Assumptions
    ///
    /// - free ranges are sorted by their start LBA
    /// - ranges don't overlap
    /// - 2 ranges always have at least 1 LBA between them that is in neither
    pub fn check_consistent(&self) -> (r: Result<(), ()>)
        requires
            forall|i: int| 0 <= i < self.free_groups().len() ==> (#[trigger] self.free_groups()[i]).wf(),
        ensures
            r is Ok <==> forall|i: int|
                0 <= i < self.free_groups().len() - 1 ==> (#[trigger] self.free_groups()[i]).end_excl()
                    < self.free_groups()[i + 1].start@,
            self.inv() ==> r is Ok,
    {
        let len = self.free.len();
        if len == 0 {
            return Ok(());
        }
        let mut i: usize = 0;
        while i < len - 1
            invariant
                len == self.free_groups().len(),
                len > 0,
                i <= len - 1,
                forall|k: int| 0 <= k < len ==> (#[trigger] self.free_groups()[k]).wf(),
                forall|k: int| 0 <= k < i ==> (#[trigger] self.free_groups()[k]).end_excl() < self.free_groups()[k + 1].start@,
            decreases len - i,
        {
            let first = self.free[i];
            let second = self.free[i + 1];
            proof {
                assert(self.free_groups()[i as int].wf());
            }
            let past_first_end = first.start.get() + first.count;
            if !(past_first_end < second.start.get()) {
                proof {
                    assert(!(self.free_groups()[i as int].end_excl() < self.free_groups()[i + 1].start@));
                }
                return Err(());
            }
            i += 1;
        }
        Ok(())
    }

    /// Check that allocator state matches the on device data structures
    ///
    /// This only checks that the allocator is not dirty and that its free list
    /// is consistent (see [BlockAllocator::check_consistent]); `_device` is
    /// not read.
    pub fn check_matches_device<D: BlockDevice>(&self, _device: &D) -> (r: Result<(), ()>)
        requires
            forall|i: int| 0 <= i < self.free_groups().len() ==> (#[trigger] self.free_groups()[i]).wf(),
        ensures
            r is Ok <==> !self.spec_dirty() && forall|i: int|
                0 <= i < self.free_groups().len() - 1 ==> (#[trigger] self.free_groups()[i]).end_excl()
                    < self.free_groups()[i + 1].start@,
    {
        if self.is_dirty() {
            return Err(());
        }
        self.check_consistent()
    }
}


/// Freeing a group right after it was allocated gives back the free blocks
/// from before the allocation, and freeing it is allowed: none of its blocks
/// is free in between.
pub proof fn lemma_free_group_undoes_allocate_group(
    before: BlockAllocator,
    between: BlockAllocator,
    after: BlockAllocator,
    g: BlockGroup,
)
    requires
        forall|b: int| g.holds(b) ==> before.free_blocks().contains(b),
        between.free_blocks() == before.free_blocks().difference(g.blocks()),
        after.free_blocks() == between.free_blocks().union(g.blocks()),
    ensures
        forall|b: int| g.holds(b) ==> !between.free_blocks().contains(b),
        after.free_blocks() == before.free_blocks(),
{
    assert(after.free_blocks() =~= before.free_blocks());
}

/// Freeing the list of groups right after it was allocated gives back the free
/// blocks from before the allocation, and freeing it is allowed.
pub proof fn lemma_free_undoes_allocate(
    before: BlockAllocator,
    between: BlockAllocator,
    after: BlockAllocator,
    list: Seq<BlockGroup>,
)
    requires
        forall|b: int| covered(list, b) ==> before.free_blocks().contains(b),
        between.free_blocks() == before.free_blocks().difference(blocks_of(list)),
        after.free_blocks() == between.free_blocks().union(blocks_of(list)),
    ensures
        forall|b: int| covered(list, b) ==> !between.free_blocks().contains(b),
        after.free_blocks() == before.free_blocks(),
{
    assert forall|b: int| covered(list, b) implies !between.free_blocks().contains(b) by {
        assert(blocks_of(list).contains(b));
    }
    assert(after.free_blocks() =~= before.free_blocks());
}

/// Freeing a block right after marking it as used gives back the free blocks
/// from before, and freeing it is allowed.
pub proof fn lemma_free_block_undoes_mark_used(
    before: BlockAllocator,
    between: BlockAllocator,
    after: BlockAllocator,
    block: int,
)
    requires
        before.free_blocks().contains(block),
        between.free_blocks() == before.free_blocks().remove(block),
        after.free_blocks() == between.free_blocks().insert(block),
    ensures
        !between.free_blocks().contains(block),
        after.free_blocks() == before.free_blocks(),
{
    assert(after.free_blocks() =~= before.free_blocks());
}

/// The groups of an allocation hold exactly the requested number of distinct
/// blocks, none of which stays free: they are the difference between the free
/// blocks before and after.
pub proof fn lemma_allocation_leaves_free_list(
    before: BlockAllocator,
    after: BlockAllocator,
    list: Seq<BlockGroup>,
    b: int,
)
    requires
        forall|x: int| covered(list, x) ==> before.free_blocks().contains(x),
        after.free_blocks() == before.free_blocks().difference(blocks_of(list)),
    ensures
        covered(list, b) <==> (before.free_blocks().contains(b) && !after.free_blocks().contains(b)),
{
    assert(blocks_of(list).contains(b) == covered(list, b));
}


/// The integers from `start` up to, not including, `end`.
pub open spec fn range_seq(start: int, end: int) -> Seq<int> {
    Seq::new((end - start) as nat, |k: int| start + k)
}

/// The blocks of the groups, in the order of the groups and, within a group,
/// in ascending order.
pub open spec fn block_seq(groups: Seq<BlockGroup>) -> Seq<int>
    decreases groups.len(),
{
    if groups.len() == 0 {
        Seq::empty()
    } else {
        range_seq(groups[0].start@ as int, groups[0].end_excl()) + block_seq(groups.drop_first())
    }
}

/// An iterator over all blocks of a [BlockGroupList], see [block_seq].
pub struct BlockGroupListBlockIter {
    groups: Vec<BlockGroup>,
    next_group: usize,
    current_group: Option<BlockGroup>,
    current_index: u64,
}

impl BlockGroupListBlockIter {
    /// The iterator's state is consistent.
    pub closed spec fn wf(&self) -> bool {
        &&& self.next_group <= self.groups@.len()
        &&& forall|i: int| 0 <= i < self.groups@.len() ==> (#[trigger] self.groups@[i]).wf()
        &&& match self.current_group {
            Some(g) => g.wf() && self.current_index < g.count,
            None => self.current_index == 0,
        }
    }

    /// The blocks that the iterator still yields, in order.
    pub closed spec fn remaining(&self) -> Seq<int> {
        let rest = block_seq(self.groups@.skip(self.next_group as int));
        match self.current_group {
            Some(g) => range_seq(g.start@ + self.current_index, g.end_excl()) + rest,
            None => rest,
        }
    }

    /// Yields the next block, or `None` once all blocks were yielded.
    pub fn next(&mut self) -> (r: Option<LBA>)
        requires
            old(self).wf(),
        ensures
            final(self).wf(),
            r is None <==> old(self).remaining().len() == 0,
            r matches Some(lba) ==> lba@ == old(self).remaining()[0] && final(self).remaining()
                == old(self).remaining().drop_first(),
            r is None ==> final(self).remaining() == old(self).remaining(),
    {
        if self.current_group.is_none() {
            if self.next_group < self.groups.len() {
                let g = self.groups[self.next_group];
                proof {
                    let rest = self.groups@.skip(self.next_group as int);
                    assert(rest[0] == g);
                    assert(rest.drop_first() =~= self.groups@.skip(self.next_group + 1));
                    assert(self.groups@[self.next_group as int].wf());
                    assert(range_seq(g.start@ + 0, g.end_excl()) =~= range_seq(g.start@ as int, g.end_excl()));
                }
                self.current_group = Some(g);
                self.next_group = self.next_group + 1;
            } else {
                proof {
                    assert(self.groups@.skip(self.next_group as int).len() == 0);
                }
                return None;
            }
        }
        let group = match self.current_group {
            Some(g) => g,
            None => {
                return None;
            },
        };
        let ghost before = self.remaining();
        let result = group.start + self.current_index;
        if self.current_index == group.count - 1 {
            self.current_group = None;
            self.current_index = 0;
            proof {
                assert(before =~= seq![result@ as int] + self.remaining());
                assert(before.drop_first() =~= self.remaining());
            }
        } else {
            self.current_index = self.current_index + 1;
            proof {
                assert(before.drop_first() =~= self.remaining());
            }
        }
        Some(result)
    }
}

impl BlockGroupList {
    /// An iterator over all blocks of the list, in order.
    pub fn block_iter(&self) -> (r: BlockGroupListBlockIter)
        requires
            forall|i: int| 0 <= i < self.groups@.len() ==> (#[trigger] self.groups@[i]).wf(),
        ensures
            r.wf(),
            r.remaining() == block_seq(self.groups@),
    {
        let r = BlockGroupListBlockIter {
            groups: self.groups.clone(),
            next_group: 0,
            current_group: None,
            current_index: 0,
        };
        proof {
            assert(r.groups@ =~= self.groups@);
            assert(r.groups@.skip(0) =~= self.groups@);
        }
        r
    }

    /// All blocks of the list, in order, see [block_seq].
    pub fn blocks(&self) -> (r: Vec<LBA>)
        requires
            forall|i: int| 0 <= i < self.groups@.len() ==> (#[trigger] self.groups@[i]).wf(),
        ensures
            r@.map_values(|l: LBA| l@ as int) == block_seq(self.groups@),
    {
        let ghost blocks = block_seq(self.groups@);
        let mut iter = self.block_iter();
        let mut lbas: Vec<LBA> = Vec::new();
        proof {
            assert(lbas@.map_values(|l: LBA| l@ as int) + iter.remaining() =~= blocks);
        }
        loop
            invariant
                iter.wf(),
                blocks == lbas@.map_values(|l: LBA| l@ as int) + iter.remaining(),
            ensures
                blocks == lbas@.map_values(|l: LBA| l@ as int),
            decreases iter.remaining().len(),
        {
            let ghost before_lbas = lbas@.map_values(|l: LBA| l@ as int);
            let ghost before_rest = iter.remaining();
            match iter.next() {
                Some(lba) => {
                    lbas.push(lba);
                    proof {
                        assert(lbas@.map_values(|l: LBA| l@ as int) =~= before_lbas.push(lba@ as int));
                        assert(before_lbas + before_rest =~= before_lbas.push(lba@ as int)
                            + before_rest.drop_first());
                    }
                },
                None => {
                    assert(before_lbas + before_rest =~= before_lbas);
                    break;
                },
            }
        }
        lbas
    }
}

/// The blocks of a list of groups are as many as the groups hold together.
pub proof fn lemma_block_seq_len(groups: Seq<BlockGroup>)
    requires
        forall|i: int| 0 <= i < groups.len() ==> (#[trigger] groups[i]).wf(),
    ensures
        block_seq(groups).len() == sum_counts_front(groups),
    decreases groups.len(),
{
    if groups.len() > 0 {
        assert forall|i: int| 0 <= i < groups.drop_first().len() implies (#[trigger] groups.drop_first()[i]).wf() by {
            assert(groups.drop_first()[i] == groups[i + 1]);
        }
        lemma_block_seq_len(groups.drop_first());
        assert(groups[0].wf());
    }
}

/// The sum of the block counts, added up from the front.
pub open spec fn sum_counts_front(groups: Seq<BlockGroup>) -> nat
    decreases groups.len(),
{
    if groups.len() == 0 {
        0
    } else {
        (groups[0].count + sum_counts_front(groups.drop_first())) as nat
    }
}

/// Summing the block counts from the back or from the front gives the same.
pub proof fn lemma_sum_counts_front(groups: Seq<BlockGroup>)
    ensures
        sum_counts(groups) == sum_counts_front(groups),
    decreases groups.len(),
{
    if groups.len() > 0 {
        lemma_sum_counts_front(groups.drop_first());
        lemma_sum_counts_front(groups.drop_last());
        if groups.len() > 1 {
            lemma_sum_counts_front(groups.drop_first().drop_last());
            assert(groups.drop_first().drop_last() =~= groups.drop_last().drop_first());
        } else {
            assert(groups.drop_first() =~= Seq::<BlockGroup>::empty());
            assert(groups.drop_last() =~= Seq::<BlockGroup>::empty());
        }
    }
}

/// A block is one of the blocks of the groups exactly where a group holds it.
pub proof fn lemma_block_seq_contains(groups: Seq<BlockGroup>, b: int)
    ensures
        block_seq(groups).contains(b) <==> covered(groups, b),
    decreases groups.len(),
{
    if groups.len() == 0 {
        lemma_covered_none(b);
        assert(groups =~= Seq::<BlockGroup>::empty());
    } else {
        lemma_block_seq_contains(groups.drop_first(), b);
        lemma_covered_drop_first(groups, b);
        let head = range_seq(groups[0].start@ as int, groups[0].end_excl());
        let rest = block_seq(groups.drop_first());
        if groups[0].holds(b) {
            assert(head[b - groups[0].start@] == b);
            assert((head + rest)[b - groups[0].start@] == b);
        }
        if (head + rest).contains(b) {
            let k = choose|k: int| 0 <= k < (head + rest).len() && (head + rest)[k] == b;
            if k >= head.len() {
                assert(rest[k - head.len()] == b);
            }
        }
        if rest.contains(b) {
            let k = choose|k: int| 0 <= k < rest.len() && rest[k] == b;
            assert((head + rest)[k + head.len()] == b);
        }
    }
}

/// The blocks of groups that share no block are all different.
pub proof fn lemma_block_seq_distinct(groups: Seq<BlockGroup>)
    requires
        pairwise_disjoint(groups),
    ensures
        block_seq(groups).no_duplicates(),
    decreases groups.len(),
{
    if groups.len() > 0 {
        let rest_groups = groups.drop_first();
        assert(pairwise_disjoint(rest_groups)) by {
            assert forall|i: int| 0 <= i < rest_groups.len() implies (#[trigger] rest_groups[i]).wf() by {
                assert(rest_groups[i] == groups[i + 1]);
            }
            assert forall|i: int, j: int, b: int|
                0 <= i < rest_groups.len() && 0 <= j < rest_groups.len() && i != j
                    && #[trigger] rest_groups[i].holds(b) implies !#[trigger] rest_groups[j].holds(b) by {
                assert(rest_groups[i] == groups[i + 1]);
                assert(rest_groups[j] == groups[j + 1]);
            }
        }
        lemma_block_seq_distinct(rest_groups);
        let head = range_seq(groups[0].start@ as int, groups[0].end_excl());
        let rest = block_seq(rest_groups);
        let all = head + rest;
        assert forall|x: int, y: int| 0 <= x < y < all.len() implies all[x] != all[y] by {
            if x < head.len() && y >= head.len() {
                lemma_block_seq_contains(rest_groups, all[y]);
                assert(rest[y - head.len()] == all[y]);
                if all[x] == all[y] {
                    assert(groups[0].holds(all[x]));
                    let k = choose|k: int| 0 <= k < rest_groups.len() && (#[trigger] rest_groups[k]).holds(all[y]);
                    assert(rest_groups[k] == groups[k + 1]);
                    assert(!groups[k + 1].holds(all[x]));
                }
            } else if x >= head.len() {
                assert(all[x] == rest[x - head.len()]);
                assert(all[y] == rest[y - head.len()]);
            }
        }
    }
}

/// The addresses of the first `k` blocks of `lbas`.
pub open spec fn lba_prefix_set(lbas: Seq<LBA>, k: int) -> Set<int> {
    Set::new(|b: int| exists|i: int| 0 <= i < k && (#[trigger] lbas[i])@ == b)
}

/// The number of free groups that one block of the stored free list holds.
pub const BLOCK_RANGES_COUNT_PER_BLOCK: usize = 250;

/// One block of the free list as the device stores it: a run of the free
/// groups, and the block that continues the list.
#[derive(Debug, Clone)]
pub struct FreeBlockGroups {
    /// The free groups stored in this block
    pub free: Vec<BlockGroup>,
    /// The block that continues the list
    pub next: Option<LBA>,
}

/// The free groups that block `k` of a stored free list holds: the `k`th run
/// of [BLOCK_RANGES_COUNT_PER_BLOCK] groups, empty past the end of `free`.
pub open spec fn stored_chunk(free: Seq<BlockGroup>, k: int) -> Seq<BlockGroup> {
    let start = k * BLOCK_RANGES_COUNT_PER_BLOCK;
    if start >= free.len() {
        Seq::empty()
    } else if start + BLOCK_RANGES_COUNT_PER_BLOCK <= free.len() {
        free.subrange(start, start + BLOCK_RANGES_COUNT_PER_BLOCK)
    } else {
        free.subrange(start, free.len() as int)
    }
}

/// The blocks of a stored list, in the order of the list.
pub open spec fn plan_blocks(plan: Seq<(LBA, FreeBlockGroups)>) -> Seq<int> {
    plan.map_values(|entry: (LBA, FreeBlockGroups)| entry.0@ as int)
}

/// Whether `plan` stores the free list `free`: block `k` holds the `k`th run
/// of groups and points to block `k + 1`, and there are enough blocks for
/// all groups.
pub open spec fn stores_free_list(plan: Seq<(LBA, FreeBlockGroups)>, free: Seq<BlockGroup>) -> bool {
    &&& plan.len() >= 1
    &&& plan.len() * BLOCK_RANGES_COUNT_PER_BLOCK >= free.len()
    &&& forall|k: int|
        0 <= k < plan.len() ==> (#[trigger] plan[k]).1.free@ == stored_chunk(free, k) && plan[k].1.next
            == if k + 1 < plan.len() {
            Some(plan[k + 1].0)
        } else {
            None
        }
}

impl BlockAllocator {
    /// The blocks that store the allocator are all different and none is free.
    pub open spec fn stored_apart(&self) -> bool {
        &&& forall|i: int|
            0 <= i < self.spec_self_on_disk().len() ==> !self.free_blocks().contains(
                (#[trigger] self.spec_self_on_disk()[i])@ as int,
            )
        &&& forall|i: int, j: int|
            0 <= i < j < self.spec_self_on_disk().len() ==> (#[trigger] self.spec_self_on_disk()[i])@
                != (#[trigger] self.spec_self_on_disk()[j])@
    }

    /// The set of blocks that store the allocator.
    pub open spec fn stored_blocks(&self) -> Set<int> {
        Set::new(
            |b: int|
                exists|i: int|
                    0 <= i < self.spec_self_on_disk().len() && (#[trigger] self.spec_self_on_disk()[i])@
                        == b,
        )
    }

    /// Prepares storing the allocator on the device: the blocks that stored
    /// it so far are freed, new blocks are allocated for the free list, and
    /// the free list is split into runs of [BLOCK_RANGES_COUNT_PER_BLOCK]
    /// groups, one per block, each block pointing to the next.
    ///
    /// Returns the blocks to write in list order, with what each holds; the
    /// allocator then records them as its storage and is no longer dirty.
    /// The allocation for the list never needs to be repeated: taking blocks
    /// never lengthens the free list. Afterwards the allocator has as many
    /// free blocks as before, plus the blocks that stored it so far, minus
    /// the blocks of the new list. It fails only where no block at all is
    /// free or stores the allocator.
    pub fn prepare_write(&mut self) -> (r: Result<Vec<(LBA, FreeBlockGroups)>, FsError>)
        requires
            old(self).inv(),
            old(self).stored_apart(),
        ensures
            r is Err <==> forall|b: int|
                !old(self).free_blocks().contains(b) && !old(self).stored_blocks().contains(b),
            r matches Err(e) ==> e == FsError::BlockDeviceFull(1),
            r is Err ==> *final(self) == *old(self),
            r matches Ok(plan) ==> {
                &&& final(self).inv()
                &&& final(self).stored_apart()
                &&& !final(self).spec_dirty()
                &&& stores_free_list(plan@, final(self).free_groups())
                &&& plan_blocks(plan@).no_duplicates()
                &&& final(self).spec_self_on_disk().map_values(|lba: LBA| lba@ as int) == plan_blocks(plan@)
                &&& final(self).spec_on_disk() == Some(plan@[0].0)
                &&& forall|b: int|
                    plan_blocks(plan@).contains(b) ==> old(self).free_blocks().contains(b)
                        || old(self).stored_blocks().contains(b)
                &&& forall|b: int|
                    final(self).free_blocks().contains(b) <==> (old(self).free_blocks().contains(b)
                        || old(self).stored_blocks().contains(b)) && !plan_blocks(plan@).contains(b)
                &&& final(self).free_blocks().len() + plan@.len() == old(self).free_blocks().len()
                    + old(self).spec_self_on_disk().len()
            },
    {
        let mut new = BlockAllocator {
            free: self.free.clone(),
            on_disk: None,
            self_on_disk: Vec::new(),
            dirty: self.dirty,
        };
        proof {
            assert(new.free@ =~= self.free@);
        }
        let ghost start = self.free_blocks();
        let mut k: usize = 0;
        while k < self.self_on_disk.len()
            invariant
                new.inv(),
                self.inv(),
                self.stored_apart(),
                start == self.free_blocks(),
                k <= self.self_on_disk@.len(),
                new.free_blocks() == start.union(lba_prefix_set(self.self_on_disk@, k as int)),
                new.on_disk is None,
                new.self_on_disk@.len() == 0,
            decreases self.self_on_disk@.len() - k,
        {
            let block = self.self_on_disk[k];
            proof {
                assert(!new.free_blocks().contains(block@ as int)) by {
                    assert(!start.contains(self.spec_self_on_disk()[k as int]@ as int));
                    if lba_prefix_set(self.self_on_disk@, k as int).contains(block@ as int) {
                        let i = choose|i: int| 0 <= i < k && (#[trigger] self.self_on_disk@[i])@ == block@;
                        assert(self.spec_self_on_disk()[i]@ != self.spec_self_on_disk()[k as int]@);
                    }
                }
            }
            let ghost before = new.free_blocks();
            new.free_block(block);
            k += 1;
            proof {
                assert forall|b: int|
                    new.free_blocks().contains(b) <==> start.union(
                        lba_prefix_set(self.self_on_disk@, k as int),
                    ).contains(b) by {
                    if b == block@ {
                        assert(self.self_on_disk@[k - 1]@ == b);
                    }
                    if lba_prefix_set(self.self_on_disk@, k as int).contains(b) {
                        let i = choose|i: int| 0 <= i < k && (#[trigger] self.self_on_disk@[i])@ == b;
                        if i < k - 1 {
                            assert(lba_prefix_set(self.self_on_disk@, k - 1).contains(b));
                        }
                    }
                    if lba_prefix_set(self.self_on_disk@, k - 1).contains(b) {
                        let i = choose|i: int| 0 <= i < k - 1 && (#[trigger] self.self_on_disk@[i])@ == b;
                        assert(lba_prefix_set(self.self_on_disk@, k as int).contains(b));
                    }
                }
                assert(new.free_blocks() =~= start.union(lba_prefix_set(self.self_on_disk@, k as int)));
            }
        }
        proof {
            assert(lba_prefix_set(self.self_on_disk@, k as int) =~= self.stored_blocks());
        }
        let ghost freed = new.free_blocks();
        let group_count = if new.free.len() > 1 {
            new.free.len()
        } else {
            1
        };
        let required = crate::wfs::lba::counts_required_for(
            BLOCK_RANGES_COUNT_PER_BLOCK as u64,
            group_count as u64,
        );
        proof {
            assert(required >= 1) by (nonlinear_arith)
                requires
                    required * 250 >= group_count,
                    group_count >= 1,
            ;
            new.lemma_free_blocks_finite();
            lemma_sum_counts_at_least_len(new.free@);
            if exists|b: int| freed.contains(b) {
                let b = choose|b: int| freed.contains(b);
                let k = choose|k: int| 0 <= k < new.free@.len() && (#[trigger] new.free@[k]).holds(b);
                assert(new.free@.len() >= 1);
                assert(required <= group_count) by (nonlinear_arith)
                    requires
                        required == spec_counts_required_for(250, group_count as nat),
                        group_count >= 1,
                ;
                assert(freed.len() >= required);
            } else {
                assert(freed =~= Set::<int>::empty());
                if new.free@.len() > 0 {
                    let g = new.free@[0];
                    assert(g.wf());
                    assert(g.holds(g.start@ as int));
                    lemma_covered_single(new.free@, 0, g.start@ as int);
                    assert(freed.contains(g.start@ as int));
                }
                assert(group_count == 1);
                assert(required == 1);
            }
        }
        let ghost before_len = new.free@.len();
        let list = match new.allocate(required) {
            Ok(list) => list,
            Err(e) => {
                proof {
                    assert(forall|b: int| !freed.contains(b));
                    assert(*self == *old(self));
                    assert forall|b: int|
                        !old(self).free_blocks().contains(b) && !old(self).stored_blocks().contains(
                            b,
                        ) by {
                        assert(!freed.contains(b));
                    }
                }
                return Err(e);
            },
        };
        proof {
            if forall|b: int| !freed.contains(b) {
                assert(freed =~= Set::<int>::empty());
            }
            assert(exists|b: int| freed.contains(b));
            assert(new.free@.len() <= before_len);
            assert(required * BLOCK_RANGES_COUNT_PER_BLOCK >= new.free@.len());
            assert forall|i: int| 0 <= i < list.groups@.len() implies (#[trigger] list.groups@[i]).wf() by {
            }
            lemma_block_seq_len(list.groups@);
            lemma_sum_counts_front(list.groups@);
            lemma_block_seq_distinct(list.groups@);
        }
        let ghost blocks = block_seq(list.groups@);
        let lbas = list.blocks();
        let n = lbas.len();
        let mut plan: Vec<(LBA, FreeBlockGroups)> = Vec::new();
        let mut k: usize = 0;
        while k < n
            invariant
                n == lbas@.len(),
                n == required,
                n * BLOCK_RANGES_COUNT_PER_BLOCK >= new.free@.len(),
                k <= n,
                plan@.len() == k,
                forall|j: int|
                    0 <= j < k ==> (#[trigger] plan@[j]).0 == lbas@[j] && plan@[j].1.free@ == stored_chunk(
                        new.free@,
                        j,
                    ) && plan@[j].1.next == if j + 1 < n {
                        Some(lbas@[j + 1])
                    } else {
                        None
                    },
            decreases n - k,
        {
            proof {
                assert((k as u128) * 250 <= u128::MAX) by (nonlinear_arith)
                    requires
                        k as u128 <= u64::MAX,
                ;
            }
            let first_wide: u128 = (k as u128) * (BLOCK_RANGES_COUNT_PER_BLOCK as u128);
            let len = new.free.len();
            let mut chunk: Vec<BlockGroup> = Vec::new();
            if first_wide < len as u128 {
                let first = first_wide as usize;
                let end = if first_wide + (BLOCK_RANGES_COUNT_PER_BLOCK as u128) <= len as u128 {
                    first + BLOCK_RANGES_COUNT_PER_BLOCK
                } else {
                    len
                };
                chunk = vstd::slice::slice_to_vec(vstd::slice::slice_subrange(new.free.as_slice(), first, end));
            }
            let next = if k + 1 < n {
                Some(lbas[k + 1])
            } else {
                None
            };
            proof {
                assert(chunk@ == stored_chunk(new.free@, k as int));
            }
            plan.push((lbas[k], FreeBlockGroups { free: chunk, next }));
            k += 1;
        }
        new.dirty = false;
        new.on_disk = Some(lbas[0]);
        new.self_on_disk = lbas;
        proof {
            assert(plan_blocks(plan@) =~= blocks) by {
                assert forall|j: int| 0 <= j < plan@.len() implies plan_blocks(plan@)[j] == blocks[j] by {
                    assert(plan@[j].0 == new.self_on_disk@[j]);
                }
            }
            assert(new.self_on_disk@.map_values(|lba: LBA| lba@ as int) =~= plan_blocks(plan@));
            assert forall|b: int| plan_blocks(plan@).contains(b) <==> covered(list.groups@, b) by {
                lemma_block_seq_contains(list.groups@, b);
            }
            assert forall|i: int|
                0 <= i < new.spec_self_on_disk().len() implies !new.free_blocks().contains(
                    (#[trigger] new.spec_self_on_disk()[i])@ as int,
                ) by {
                let b = new.spec_self_on_disk()[i]@ as int;
                assert(plan_blocks(plan@)[i] == b);
                assert(plan_blocks(plan@).contains(b));
            }
            assert forall|i: int, j: int|
                0 <= i < j < new.spec_self_on_disk().len() implies (#[trigger] new.spec_self_on_disk()[i])@
                    != (#[trigger] new.spec_self_on_disk()[j])@ by {
                assert(plan_blocks(plan@)[i] == new.spec_self_on_disk()[i]@);
                assert(plan_blocks(plan@)[j] == new.spec_self_on_disk()[j]@);
            }
        }
        proof {
            lemma_write_free_count(*old(self), new, plan_blocks(plan@));
        }
        *self = new;
        Ok(plan)
    }
}

/// The count of free blocks after storing the allocator: the blocks that
/// stored it before are freed and the blocks of the new list taken, each
/// exactly once.
proof fn lemma_write_free_count(before: BlockAllocator, after: BlockAllocator, taken: Seq<int>)
    requires
        before.inv(),
        before.stored_apart(),
        after.inv(),
        taken.no_duplicates(),
        forall|b: int| taken.contains(b) ==> before.free_blocks().contains(b) || before.stored_blocks().contains(b),
        forall|b: int|
            after.free_blocks().contains(b) <==> (before.free_blocks().contains(b)
                || before.stored_blocks().contains(b)) && !taken.contains(b),
    ensures
        after.free_blocks().len() + taken.len() == before.free_blocks().len()
            + before.spec_self_on_disk().len(),
{
    let free = before.free_blocks();
    let stored_seq = before.spec_self_on_disk().map_values(|lba: LBA| lba@ as int);
    let stored = stored_seq.to_set();
    before.lemma_free_blocks_finite();
    after.lemma_free_blocks_finite();
    assert(stored =~= before.stored_blocks()) by {
        assert forall|b: int| stored.contains(b) <==> before.stored_blocks().contains(b) by {
            if stored.contains(b) {
                let i = choose|i: int| 0 <= i < stored_seq.len() && stored_seq[i] == b;
                assert(before.spec_self_on_disk()[i]@ == b);
            }
            if before.stored_blocks().contains(b) {
                let i = choose|i: int|
                    0 <= i < before.spec_self_on_disk().len() && (#[trigger] before.spec_self_on_disk()[i])@ == b;
                assert(stored_seq[i] == b);
            }
        }
    }
    assert(stored_seq.no_duplicates()) by {
        assert forall|i: int, j: int|
            0 <= i < stored_seq.len() && 0 <= j < stored_seq.len() && i != j implies stored_seq[i]
            != stored_seq[j] by {
            if i < j {
                assert(before.spec_self_on_disk()[i]@ != before.spec_self_on_disk()[j]@);
            } else {
                assert(before.spec_self_on_disk()[j]@ != before.spec_self_on_disk()[i]@);
            }
        }
    }
    stored_seq.unique_seq_to_set();
    taken.unique_seq_to_set();
    vstd::seq_lib::seq_to_set_is_finite(stored_seq);
    vstd::seq_lib::seq_to_set_is_finite(taken);
    let all = free + stored;
    assert(free.disjoint(stored)) by {
        assert forall|b: int| free.contains(b) implies !stored.contains(b) by {
            if stored.contains(b) {
                let i = choose|i: int|
                    0 <= i < before.spec_self_on_disk().len() && (#[trigger] before.spec_self_on_disk()[i])@ == b;
                assert(!before.free_blocks().contains(before.spec_self_on_disk()[i]@ as int));
            }
        }
    }
    vstd::set_lib::lemma_set_disjoint_lens(free, stored);
    let t = taken.to_set();
    let left = after.free_blocks();
    assert(left.disjoint(t));
    assert(left + t =~= all);
    vstd::set_lib::lemma_set_disjoint_lens(left, t);
}

/// The runs of groups, one after the other.
pub open spec fn concat_runs(runs: Seq<Seq<BlockGroup>>) -> Seq<BlockGroup>
    decreases runs.len(),
{
    if runs.len() == 0 {
        Seq::empty()
    } else {
        concat_runs(runs.drop_last()) + runs.last()
    }
}

/// The free groups of the blocks of a stored free list, in list order.
pub open spec fn concat_frees(blocks: Seq<FreeBlockGroups>) -> Seq<BlockGroup> {
    concat_runs(blocks.map_values(|b: FreeBlockGroups| b.free@))
}

/// The addresses of the blocks of a stored list that starts at `first`: each
/// following block is the one the block before points to.
pub open spec fn chain_lbas(first: LBA, blocks: Seq<FreeBlockGroups>) -> Seq<LBA> {
    Seq::new(blocks.len(), |k: int| if k == 0 { first } else { blocks[k - 1].next->0 })
}

/// Whether `blocks` is a whole stored list: every block but the last points
/// to a next block, and the last to none.
pub open spec fn is_chain(blocks: Seq<FreeBlockGroups>) -> bool {
    &&& blocks.len() >= 1
    &&& forall|k: int| 0 <= k < blocks.len() - 1 ==> (#[trigger] blocks[k]).next is Some
    &&& blocks.last().next is None
}

proof fn lemma_concat_frees_push(blocks: Seq<FreeBlockGroups>, k: int)
    requires
        0 <= k < blocks.len(),
    ensures
        concat_frees(blocks.take(k + 1)) == concat_frees(blocks.take(k)) + blocks[k].free@,
{
    let runs = blocks.take(k + 1).map_values(|b: FreeBlockGroups| b.free@);
    assert(runs.drop_last() =~= blocks.take(k).map_values(|b: FreeBlockGroups| b.free@));
}

impl BlockAllocator {
    /// The allocator stored in the list whose first block is `first` and whose
    /// blocks, read by following the pointers from block to block, are
    /// `blocks`; its free list must be consistent.
    pub fn load(first: LBA, blocks: Vec<FreeBlockGroups>) -> (r: Self)
        requires
            is_chain(blocks@),
            groups_wf(concat_frees(blocks@)),
        ensures
            r.inv(),
            !r.spec_dirty(),
            r.free_groups() == concat_frees(blocks@),
            r.spec_self_on_disk() == chain_lbas(first, blocks@),
            r.spec_on_disk() == Some(first),
    {
        let mut free: Vec<BlockGroup> = Vec::new();
        let mut self_on_disk: Vec<LBA> = Vec::new();
        let mut next_block: Option<LBA> = Some(first);
        let mut k: usize = 0;
        proof {
            assert(blocks@.take(0).map_values(|b: FreeBlockGroups| b.free@) =~= Seq::<Seq<BlockGroup>>::empty());
            assert(chain_lbas(first, blocks@).take(0) =~= Seq::<LBA>::empty());
        }
        while k < blocks.len()
            invariant
                is_chain(blocks@),
                k <= blocks@.len(),
                free@ == concat_frees(blocks@.take(k as int)),
                self_on_disk@ == chain_lbas(first, blocks@).take(k as int),
                k < blocks@.len() ==> next_block == Some(chain_lbas(first, blocks@)[k as int]),
            decreases blocks@.len() - k,
        {
            let lba = match next_block {
                Some(lba) => lba,
                None => {
                    assert(false);
                    first
                },
            };
            self_on_disk.push(lba);
            let data = &blocks[k];
            let mut i: usize = 0;
            let ghost before = free@;
            while i < data.free.len()
                invariant
                    i <= data.free@.len(),
                    free@ == before + data.free@.take(i as int),
                decreases data.free@.len() - i,
            {
                free.push(data.free[i]);
                proof {
                    assert(data.free@.take(i + 1) =~= data.free@.take(i as int).push(data.free@[i as int]));
                }
                i += 1;
            }
            next_block = data.next;
            proof {
                assert(data.free@.take(i as int) =~= data.free@);
                lemma_concat_frees_push(blocks@, k as int);
                assert(self_on_disk@ =~= chain_lbas(first, blocks@).take(k + 1));
                if k + 1 < blocks@.len() {
                    assert(blocks@[k as int].next is Some);
                }
            }
            k += 1;
        }
        proof {
            assert(blocks@.take(k as int) =~= blocks@);
            assert(chain_lbas(first, blocks@).take(k as int) =~= chain_lbas(first, blocks@));
        }
        BlockAllocator { free, on_disk: Some(first), self_on_disk, dirty: false }
    }
}

/// Checks the blocks of a stored free list, as read from the device, before
/// [BlockAllocator::load]: they form one list, and the groups they hold are
/// sorted and well formed with a gap between two groups.
pub fn check_stored_list(blocks: &Vec<FreeBlockGroups>) -> (r: bool)
    ensures
        r == (is_chain(blocks@) && groups_wf(concat_frees(blocks@))),
{
    let n = blocks.len();
    if n == 0 {
        return false;
    }
    let mut k: usize = 0;
    while k + 1 < n
        invariant
            n == blocks@.len(),
            n >= 1,
            k < n,
            forall|j: int| 0 <= j < k ==> (#[trigger] blocks@[j]).next is Some,
        decreases n - k,
    {
        if blocks[k].next.is_none() {
            return false;
        }
        k += 1;
    }
    if blocks[n - 1].next.is_some() {
        return false;
    }
    proof {
        assert(is_chain(blocks@));
    }
    let mut free: Vec<BlockGroup> = Vec::new();
    let mut k: usize = 0;
    proof {
        assert(blocks@.take(0).map_values(|b: FreeBlockGroups| b.free@) =~= Seq::<Seq<BlockGroup>>::empty());
    }
    while k < n
        invariant
            n == blocks@.len(),
            k <= n,
            free@ == concat_frees(blocks@.take(k as int)),
        decreases n - k,
    {
        let data = &blocks[k];
        let mut i: usize = 0;
        let ghost before = free@;
        while i < data.free.len()
            invariant
                i <= data.free@.len(),
                free@ == before + data.free@.take(i as int),
            decreases data.free@.len() - i,
        {
            free.push(data.free[i]);
            proof {
                assert(data.free@.take(i + 1) =~= data.free@.take(i as int).push(data.free@[i as int]));
            }
            i += 1;
        }
        proof {
            assert(data.free@.take(i as int) =~= data.free@);
            lemma_concat_frees_push(blocks@, k as int);
        }
        k += 1;
    }
    proof {
        assert(blocks@.take(n as int) =~= blocks@);
        assert(free@.take(0) =~= Seq::<BlockGroup>::empty());
    }
    let mut i: usize = 0;
    while i < free.len()
        invariant
            i <= free@.len(),
            free@ == concat_frees(blocks@),
            is_chain(blocks@),
            groups_wf(free@.take(i as int)),
        decreases free@.len() - i,
    {
        let g = free[i];
        if g.count == 0 || g.count > u64::MAX - g.start.get() {
            proof {
                assert(free@.take(i + 1)[i as int] == g);
                assert(!groups_wf(free@));
            }
            return false;
        }
        if i > 0 {
            let p = free[i - 1];
            proof {
                assert(free@.take(i as int)[i - 1] == p);
            }
            if !(p.start.get() + p.count < g.start.get()) {
                proof {
                    assert(free@[i - 1].end_excl() >= free@[i as int].start@);
                }
                return false;
            }
        }
        proof {
            let t = free@.take(i + 1);
            assert forall|a: int, b: int| 0 <= a < b < t.len() implies (#[trigger] t[a]).end_excl()
                < (#[trigger] t[b]).start@ by {
                if b < i {
                    assert(free@.take(i as int)[a] == t[a]);
                    assert(free@.take(i as int)[b] == t[b]);
                } else if a < i - 1 {
                    assert(free@.take(i as int)[a] == t[a]);
                    assert(free@.take(i as int)[i - 1] == t[i - 1]);
                }
            }
            assert forall|a: int| 0 <= a < t.len() implies (#[trigger] t[a]).wf() by {
                if a < i {
                    assert(free@.take(i as int)[a] == t[a]);
                }
            }
        }
        i += 1;
    }
    proof {
        assert(free@.take(i as int) =~= free@);
    }
    true
}

impl BlockAllocator {
    /// Checks that the blocks that store the allocator are all different and
    /// that none of them is free, see [BlockAllocator::stored_apart]. This
    /// holds of an allocator that [BlockAllocator::prepare_write] made, and
    /// is to be checked of one that was loaded from the device.
    pub fn check_stored_apart(&self) -> (r: bool)
        requires
            self.inv(),
        ensures
            r == self.stored_apart(),
    {
        let n = self.self_on_disk.len();
        let mut i: usize = 0;
        while i < n
            invariant
                self.inv(),
                n == self.spec_self_on_disk().len(),
                i <= n,
                forall|a: int|
                    0 <= a < i ==> !self.free_blocks().contains(
                        (#[trigger] self.spec_self_on_disk()[a])@ as int,
                    ),
                forall|a: int, b: int|
                    0 <= a < b < i ==> (#[trigger] self.spec_self_on_disk()[a])@
                        != (#[trigger] self.spec_self_on_disk()[b])@,
            decreases n - i,
        {
            let lba = self.self_on_disk[i];
            let mut j: usize = 0;
            while j < self.free.len()
                invariant
                    self.inv(),
                    i < n,
                    n == self.spec_self_on_disk().len(),
                    lba == self.spec_self_on_disk()[i as int],
                    j <= self.free_groups().len(),
                    forall|c: int| 0 <= c < j ==> !(#[trigger] self.free_groups()[c]).holds(lba@ as int),
                decreases self.free_groups().len() - j,
            {
                proof {
                    assert(self.free_groups()[j as int].wf());
                }
                if self.free[j].contains(lba) {
                    proof {
                        assert(self.free_groups()[j as int].holds(lba@ as int));
                        assert(self.free_blocks().contains(self.spec_self_on_disk()[i as int]@ as int));
                    }
                    return false;
                }
                j += 1;
            }
            let mut j: usize = 0;
            while j < i
                invariant
                    j <= i,
                    i < n,
                    n == self.spec_self_on_disk().len(),
                    lba == self.spec_self_on_disk()[i as int],
                    forall|c: int| 0 <= c < j ==> (#[trigger] self.spec_self_on_disk()[c])@ != lba@,
                decreases i - j,
            {
                if self.self_on_disk[j].get() == lba.get() {
                    return false;
                }
                j += 1;
            }
            proof {
                assert(!self.free_blocks().contains(lba@ as int));
            }
            i += 1;
        }
        true
    }
}

proof fn lemma_concat_chunks(free: Seq<BlockGroup>, n: int)
    requires
        n >= 0,
    ensures
        concat_runs(Seq::new(n as nat, |k: int| stored_chunk(free, k))) == free.take(
            if n * BLOCK_RANGES_COUNT_PER_BLOCK <= free.len() {
                n * BLOCK_RANGES_COUNT_PER_BLOCK
            } else {
                free.len() as int
            },
        ),
    decreases n,
{
    let runs = Seq::new(n as nat, |k: int| stored_chunk(free, k));
    if n == 0 {
        assert(free.take(0) =~= Seq::<BlockGroup>::empty());
    } else {
        lemma_concat_chunks(free, n - 1);
        assert(runs.drop_last() =~= Seq::new((n - 1) as nat, |k: int| stored_chunk(free, k)));
        let prev = if (n - 1) * BLOCK_RANGES_COUNT_PER_BLOCK <= free.len() {
            (n - 1) * BLOCK_RANGES_COUNT_PER_BLOCK
        } else {
            free.len() as int
        };
        let cur = if n * BLOCK_RANGES_COUNT_PER_BLOCK <= free.len() {
            n * BLOCK_RANGES_COUNT_PER_BLOCK
        } else {
            free.len() as int
        };
        assert(free.take(prev) + stored_chunk(free, n - 1) =~= free.take(cur));
    }
}

/// Reading back a stored free list gives the free list that was stored, and
/// the blocks of the list in their order: loading the blocks that
/// [BlockAllocator::prepare_write] returns, from the first one on, restores
/// the allocator's free groups and its storage.
pub proof fn lemma_load_reads_back_write(plan: Seq<(LBA, FreeBlockGroups)>, free: Seq<BlockGroup>)
    requires
        stores_free_list(plan, free),
    ensures
        is_chain(plan.map_values(|e: (LBA, FreeBlockGroups)| e.1)),
        concat_frees(plan.map_values(|e: (LBA, FreeBlockGroups)| e.1)) == free,
        chain_lbas(plan[0].0, plan.map_values(|e: (LBA, FreeBlockGroups)| e.1)) == plan.map_values(
            |e: (LBA, FreeBlockGroups)| e.0,
        ),
{
    let blocks = plan.map_values(|e: (LBA, FreeBlockGroups)| e.1);
    let n = plan.len() as int;
    assert forall|k: int| 0 <= k < blocks.len() - 1 implies (#[trigger] blocks[k]).next is Some by {
        assert(blocks[k] == plan[k].1);
    }
    assert(blocks.last() == plan[n - 1].1);
    assert(blocks.map_values(|b: FreeBlockGroups| b.free@) =~= Seq::new(
        n as nat,
        |k: int| stored_chunk(free, k),
    )) by {
        assert forall|k: int| 0 <= k < n implies blocks.map_values(|b: FreeBlockGroups| b.free@)[k]
            == stored_chunk(free, k) by {
            assert(blocks[k] == plan[k].1);
        }
    }
    lemma_concat_chunks(free, n);
    assert(free.take(free.len() as int) =~= free);
    assert(chain_lbas(plan[0].0, blocks) =~= plan.map_values(|e: (LBA, FreeBlockGroups)| e.0)) by {
        assert forall|k: int| 0 < k < n implies chain_lbas(plan[0].0, blocks)[k] == plan[k].0 by {
            assert(blocks[k - 1] == plan[k - 1].1);
        }
    }
}

/// Groups that are sorted and apart share no block.
pub proof fn lemma_groups_wf_disjoint(groups: Seq<BlockGroup>)
    requires
        groups_wf(groups),
    ensures
        pairwise_disjoint(groups),
{
    assert forall|i: int, j: int, b: int|
        0 <= i < groups.len() && 0 <= j < groups.len() && i != j && #[trigger] groups[i].holds(b)
            implies !#[trigger] groups[j].holds(b) by {
        if i < j {
            assert(groups[i].end_excl() < groups[j].start@);
        } else {
            assert(groups[j].end_excl() < groups[i].start@);
        }
    }
}

/// Groups that share no block hold as many blocks as their counts add up to.
pub proof fn lemma_blocks_card(groups: Seq<BlockGroup>)
    requires
        pairwise_disjoint(groups),
    ensures
        blocks_of(groups).finite(),
        blocks_of(groups).len() == sum_counts(groups),
{
    lemma_block_seq_distinct(groups);
    lemma_block_seq_len(groups);
    lemma_sum_counts_front(groups);
    let s = block_seq(groups);
    assert(s.to_set() =~= blocks_of(groups)) by {
        assert forall|b: int| s.to_set().contains(b) <==> blocks_of(groups).contains(b) by {
            lemma_block_seq_contains(groups, b);
        }
    }
    vstd::seq_lib::seq_to_set_is_finite(s);
    s.unique_seq_to_set();
}

impl BlockAllocator {
    /// The free blocks of a consistent allocator are finitely many: as many
    /// as the counts of its free groups add up to.
    pub proof fn lemma_free_blocks_finite(&self)
        requires
            self.inv(),
        ensures
            self.free_blocks().finite(),
            self.free_blocks().len() == sum_counts(self.free_groups()),
    {
        lemma_groups_wf_disjoint(self.free_groups());
        lemma_blocks_card(self.free_groups());
    }
}

/// Well formed groups hold at least one block each.
pub proof fn lemma_sum_counts_at_least_len(groups: Seq<BlockGroup>)
    requires
        forall|i: int| 0 <= i < groups.len() ==> (#[trigger] groups[i]).wf(),
    ensures
        sum_counts(groups) >= groups.len(),
    decreases groups.len(),
{
    if groups.len() > 0 {
        let rest = groups.drop_last();
        assert forall|i: int| 0 <= i < rest.len() implies (#[trigger] rest[i]).wf() by {
            assert(rest[i] == groups[i]);
        }
        lemma_sum_counts_at_least_len(rest);
        assert(groups[groups.len() - 1].wf());
    }
}

} // verus!
