//! Logical block addresses and groups of contiguous blocks.

use vstd::prelude::*;

verus! {

/// The size of any block used to store data on the disc
pub const BLOCK_SIZE: usize = 4096;

/// The number of blocks of `BLOCK_SIZE` bytes needed to hold `bytes` bytes.
pub open spec fn spec_blocks_required_for(bytes: nat) -> nat {
    if bytes % (BLOCK_SIZE as nat) == 0 {
        bytes / (BLOCK_SIZE as nat)
    } else {
        bytes / (BLOCK_SIZE as nat) + 1
    }
}

/// The number of items of size `size` needed to hold `count`: `count / size` rounded up.
pub open spec fn spec_counts_required_for(size: nat, count: nat) -> nat {
    if count % size == 0 {
        count / size
    } else {
        count / size + 1
    }
}

/// Calculate the number of items of `size` needed to hold `count`, rounding up.
pub fn counts_required_for(size: u64, count: u64) -> (r: u64)
    requires
        size > 0,
    ensures
        r == spec_counts_required_for(size as nat, count as nat),
        r as int * size >= count,
{
    let q = count / size;
    let rem = count % size;
    proof {
        vstd::arithmetic::div_mod::lemma_fundamental_div_mod(count as int, size as int);
        assert(q < u64::MAX || rem == 0) by (nonlinear_arith)
            requires
                count == size * q + rem,
                0 <= rem < size,
                count <= u64::MAX,
        ;
    }
    let r = if rem == 0 {
        q
    } else {
        q + 1
    };
    proof {
        assert(r as int * size >= count) by (nonlinear_arith)
            requires
                count == size * q + rem,
                0 <= rem < size,
                r == (if rem == 0 { q as int } else { q + 1 }),
        ;
    }
    r
}

/// Calculate the number of blocks required for `bytes` memory.
pub fn blocks_required_for(bytes: u64) -> (r: u64)
    ensures
        r == spec_blocks_required_for(bytes as nat),
{
    counts_required_for(BLOCK_SIZE as u64, bytes)
}

/// Logical Block Address
///
/// Each [LBA] addresses a single block on a block device. The address
/// `u64::MAX` is never a valid [LBA].
#[derive(Debug, Clone, Copy, PartialEq, Eq, Structural, Hash, PartialOrd, Ord)]
pub struct LBA(u64);

impl View for LBA {
    type V = u64;

    closed spec fn view(&self) -> u64 {
        self.0
    }
}

impl LBA {
    #[verifier::type_invariant]
    spec fn never_max(self) -> bool {
        self.0 != u64::MAX
    }

    /// The address of `addr`, which must not be `u64::MAX`.
    pub closed spec fn at(addr: u64) -> LBA {
        LBA(addr)
    }

    /// An address made from `addr` has the value `addr`.
    pub proof fn lemma_at(addr: u64)
        ensures
            LBA::at(addr)@ == addr,
    {
    }

    /// Two addresses with the same value are the same address.
    pub proof fn lemma_view_injective(a: LBA, b: LBA)
        ensures
            a@ == b@ ==> a == b,
    {
    }

    /// The address `addr`, or `None` for `u64::MAX`.
    pub fn new(addr: u64) -> (r: Option<Self>)
        ensures
            r is None <==> addr == u64::MAX,
            r matches Some(lba) ==> lba@ == addr && lba == LBA::at(addr),
    {
        if addr == u64::MAX {
            None
        } else {
            Some(LBA(addr))
        }
    }

    /// The block that holds the byte at `offset`.
    pub fn from_byte_offset(offset: u64) -> (r: Option<LBA>)
        ensures
            r matches Some(lba) && lba@ == offset / (BLOCK_SIZE as u64),
    {
        let block = offset / BLOCK_SIZE as u64;
        assert(block < u64::MAX) by (nonlinear_arith)
            requires
                block == offset / 4096,
                offset <= u64::MAX,
        ;
        LBA::new(block)
    }

    /// The offset of the first byte of this block.
    pub fn to_byte_offset(self) -> (r: u64)
        requires
            self@ * BLOCK_SIZE <= u64::MAX,
        ensures
            r == self@ * BLOCK_SIZE,
    {
        self.get() * BLOCK_SIZE as u64
    }

    /// The address as a number.
    pub fn get(self) -> (r: u64)
        ensures
            r == self@,
            r < u64::MAX,
    {
        proof {
            use_type_invariant(self);
        }
        self.0
    }

    /// The largest valid address.
    pub fn max() -> (r: LBA)
        ensures
            r@ == u64::MAX - 1,
    {
        LBA(u64::MAX - 1)
    }

    /// `self <= other`
    pub fn le(self, other: LBA) -> (r: bool)
        ensures
            r == (self@ <= other@),
    {
        self.0 <= other.0
    }

    /// `self < other`
    pub fn lt(self, other: LBA) -> (r: bool)
        ensures
            r == (self@ < other@),
    {
        self.0 < other.0
    }
}

impl core::ops::Add<u64> for LBA {
    type Output = LBA;

    /// The address `rhs` blocks after `self`, which must not be `u64::MAX`.
    fn add(self, rhs: u64) -> (r: LBA)
        ensures
            r@ == self@ + rhs,
    {
        LBA(self.0 + rhs)
    }
}

impl vstd::std_specs::ops::AddSpecImpl<u64> for LBA {
    open spec fn obeys_add_spec() -> bool {
        true
    }

    open spec fn add_req(self, rhs: u64) -> bool {
        self@ + rhs < u64::MAX
    }

    open spec fn add_spec(self, rhs: u64) -> LBA {
        LBA::at((self@ + rhs) as u64)
    }
}

impl core::ops::Sub<LBA> for LBA {
    type Output = u64;

    /// The number of blocks from `rhs` to `self`; `rhs` must not lie after `self`.
    fn sub(self, rhs: LBA) -> (r: u64)
        ensures
            r == self@ - rhs@,
    {
        self.0 - rhs.0
    }
}

impl vstd::std_specs::ops::SubSpecImpl<LBA> for LBA {
    open spec fn obeys_sub_spec() -> bool {
        true
    }

    open spec fn sub_req(self, rhs: LBA) -> bool {
        self@ >= rhs@
    }

    open spec fn sub_spec(self, rhs: LBA) -> u64 {
        (self@ - rhs@) as u64
    }
}

impl core::ops::Sub<u64> for LBA {
    type Output = LBA;

    /// The address `rhs` blocks before `self`, which must not lie before 0.
    fn sub(self, rhs: u64) -> (r: LBA)
        ensures
            r@ == self@ - rhs,
    {
        proof {
            use_type_invariant(self);
        }
        LBA(self.0 - rhs)
    }
}

impl vstd::std_specs::ops::SubSpecImpl<u64> for LBA {
    open spec fn obeys_sub_spec() -> bool {
        true
    }

    open spec fn sub_req(self, rhs: u64) -> bool {
        self@ >= rhs
    }

    open spec fn sub_spec(self, rhs: u64) -> LBA {
        LBA::at((self@ - rhs) as u64)
    }
}

/// A group of contigous logical blocks
#[derive(Debug, Clone, Copy, PartialEq, Eq, Structural, Hash)]
pub struct BlockGroup {
    /// The fist block in the group
    pub start: LBA,
    /// The number of blocks in the group, never 0
    pub count: u64,
}

impl BlockGroup {
    /// A group of at least one block, whose last block is a valid address.
    pub open spec fn wf(self) -> bool {
        &&& self.count > 0
        &&& self.start@ + self.count <= u64::MAX
    }

    /// The address one past the last block.
    pub open spec fn end_excl(self) -> int {
        self.start@ + self.count
    }

    /// Whether `block` lies in this group.
    pub open spec fn holds(self, block: int) -> bool {
        self.start@ <= block < self.end_excl()
    }

    /// The blocks of this group.
    pub open spec fn blocks(self) -> Set<int> {
        Set::new(|b: int| self.holds(b))
    }

    /// The group of all blocks from `start` to `end`, both included.
    pub fn new(start: LBA, end: LBA) -> (r: Self)
        requires
            start@ <= end@,
        ensures
            r.start == start,
            r.count == end@ - start@ + 1,
            r.wf(),
    {
        let e = end.get();
        Self { start, count: e + 1 - start.get() }
    }

    /// The group of `count` blocks starting at `start`.
    pub fn with_count(start: LBA, count: u64) -> (r: Self)
        requires
            count > 0,
        ensures
            r.start == start,
            r.count == count,
    {
        Self { start, count }
    }

    /// The last block of the group.
    pub fn end(&self) -> (r: LBA)
        requires
            self.wf(),
        ensures
            r@ == self.start@ + self.count - 1,
    {
        self.start + (self.count - 1)
    }

    /// The number of blocks in the group.
    pub fn count(&self) -> (r: u64)
        ensures
            r == self.count,
    {
        self.count
    }

    /// The number of bytes in the group.
    pub fn bytes(&self) -> (r: u64)
        requires
            self.count * BLOCK_SIZE <= u64::MAX,
        ensures
            r == self.count * BLOCK_SIZE,
    {
        self.count() * BLOCK_SIZE as u64
    }

    /// Whether `lba` lies in this group.
    pub fn contains(&self, lba: LBA) -> (r: bool)
        requires
            self.wf(),
        ensures
            r == self.holds(lba@ as int),
    {
        self.start.le(lba) && lba.le(self.end())
    }

    /// The group without its first `block_offset` blocks.
    pub fn subgroup(&self, block_offset: u64) -> (r: Self)
        requires
            self.wf(),
            self.count > block_offset,
        ensures
            r.start@ == self.start@ + block_offset,
            r.count == self.count - block_offset,
            r.wf(),
    {
        BlockGroup::new(self.start + block_offset, self.end())
    }

    /// The group without its last `blocks_to_remove` blocks.
    pub fn remove_end(&self, blocks_to_remove: u64) -> (r: Self)
        requires
            self.wf(),
            self.count > blocks_to_remove,
        ensures
            r.start == self.start,
            r.count == self.count - blocks_to_remove,
            r.wf(),
    {
        BlockGroup::new(self.start, self.end() - blocks_to_remove)
    }

    /// The group of the first `new_length` blocks.
    pub fn shorten(&self, new_length: u64) -> (r: Self)
        requires
            self.wf(),
            0 < new_length <= self.count,
        ensures
            r.start == self.start,
            r.count == new_length,
            r.wf(),
    {
        self.remove_end(self.count() - new_length)
    }
}

} // verus!
