//! In memory forms of the file system structures: the list of block groups
//! that holds a file's data, and the walk over the part of that list that
//! holds a range of bytes.

use vstd::prelude::*;

use super::block_allocator::{sum_counts, BlockGroupList};
use super::fs_structs::{BlockListHead, FileId};
use super::lba::{blocks_required_for, spec_blocks_required_for, BlockGroup, BLOCK_SIZE, LBA};

verus! {

/// A well formed group whose size in bytes fits into a `u64`.
pub open spec fn group_fits(g: BlockGroup) -> bool {
    g.wf() && g.count * BLOCK_SIZE <= u64::MAX
}

/// Every group is well formed and its size in bytes fits into a `u64`.
pub open spec fn groups_fit(groups: Seq<BlockGroup>) -> bool {
    forall|i: int| 0 <= i < groups.len() ==> group_fits(#[trigger] groups[i])
}

/// The number of bytes in the groups.
pub open spec fn total_bytes(groups: Seq<BlockGroup>) -> int
    decreases groups.len(),
{
    if groups.len() == 0 {
        0
    } else {
        groups[0].count * BLOCK_SIZE + total_bytes(groups.drop_first())
    }
}

/// The device address of the byte at position `pos` of the data that the
/// groups hold one after the other.
pub open spec fn byte_address(groups: Seq<BlockGroup>, pos: int) -> int
    decreases groups.len(),
{
    if groups.len() == 0 {
        0
    } else if pos < groups[0].count * BLOCK_SIZE {
        groups[0].start@ * BLOCK_SIZE + pos
    } else {
        byte_address(groups.drop_first(), pos - groups[0].count * BLOCK_SIZE)
    }
}

proof fn lemma_total_bytes_nonneg(groups: Seq<BlockGroup>)
    ensures
        total_bytes(groups) >= 0,
    decreases groups.len(),
{
    if groups.len() > 0 {
        lemma_total_bytes_nonneg(groups.drop_first());
    }
}

/// The device address of byte `i` of the part `p`.
pub open spec fn part_address(p: PartialBlockGroup, i: int) -> int {
    p.group.start@ * BLOCK_SIZE + p.offset + i
}

/// Whether the bytes of the part `p` are the bytes from position `from` on of
/// the data that `groups` hold.
pub open spec fn maps_range(p: PartialBlockGroup, groups: Seq<BlockGroup>, from: int) -> bool {
    forall|i: int| 0 <= i < p.len ==> #[trigger] part_address(p, i) == byte_address(groups, from + i)
}

/// Whether the data that `after` holds is the data that `before` holds from
/// position `from` on.
pub open spec fn continues(after: Seq<BlockGroup>, before: Seq<BlockGroup>, from: int) -> bool {
    &&& total_bytes(after) == total_bytes(before) - from
    &&& forall|pos: int|
        0 <= pos < total_bytes(after) ==> #[trigger] byte_address(after, pos) == byte_address(
            before,
            from + pos,
        )
}

/// Two successive parts of a walk hold successive bytes of the data: where
/// the first part holds the bytes from `from` on of `before`, the groups that
/// remain after it hold the data of `before` that follows that part, and the
/// second part holds the first bytes of what remains, the second part holds
/// the bytes of `before` right after those of the first.
pub proof fn lemma_parts_follow(
    before: Seq<BlockGroup>,
    after: Seq<BlockGroup>,
    first: PartialBlockGroup,
    second: PartialBlockGroup,
    from: int,
)
    requires
        maps_range(first, before, from),
        continues(after, before, from + first.len),
        maps_range(second, after, 0),
        second.len <= total_bytes(after),
    ensures
        maps_range(second, before, from + first.len),
{
    assert forall|i: int| 0 <= i < second.len implies #[trigger] part_address(second, i)
        == byte_address(before, from + first.len + i) by {
        assert(part_address(second, i) == byte_address(after, 0 + i));
        assert(byte_address(after, i) == byte_address(before, from + first.len + i));
    }
}

/// A part of a [BlockGroup]: `len` bytes from byte `offset` on.
#[derive(Debug, Clone, Copy, PartialEq, Eq, Structural)]
pub struct PartialBlockGroup {
    /// The group
    pub group: BlockGroup,
    /// byte offset into the group
    pub offset: u64,
    /// number of bytes to use within the group
    pub len: u64,
}

/// The walk over the groups that hold a range of bytes of a [BlockList], see
/// [BlockList::iter_partial].
#[derive(Debug, Clone)]
pub struct BlockListPartialIter {
    groups: Vec<BlockGroup>,
    next_group: usize,
    skip_bytes: u64,
    remaining_bytes: u64,
}

impl BlockListPartialIter {
    /// The groups still to walk.
    pub closed spec fn remaining_groups(&self) -> Seq<BlockGroup> {
        self.groups@.skip(self.next_group as int)
    }

    /// The bytes at the start of the remaining groups that are not part of the
    /// range.
    pub closed spec fn skip(&self) -> nat {
        self.skip_bytes as nat
    }

    /// The number of bytes of the range still to walk.
    pub closed spec fn remaining(&self) -> nat {
        self.remaining_bytes as nat
    }

    /// The state of the walk is consistent.
    pub closed spec fn wf(&self) -> bool {
        self.next_group <= self.groups@.len() && groups_fit(self.groups@)
    }

    /// A walk over `bytes` bytes from `byte_offset` on of the data held by
    /// `groups`.
    pub fn new(groups: Vec<BlockGroup>, byte_offset: u64, bytes: u64) -> (r: Self)
        requires
            groups_fit(groups@),
        ensures
            r.wf(),
            r.remaining_groups() == groups@,
            r.skip() == byte_offset,
            r.remaining() == bytes,
    {
        let r = BlockListPartialIter {
            groups,
            next_group: 0,
            skip_bytes: byte_offset,
            remaining_bytes: bytes,
        };
        assert(r.groups@.skip(0) =~= r.groups@);
        r
    }

    /// The next part of a group that holds bytes of the range: the bytes from
    /// position `skip` on of the remaining groups, as many as the group holds
    /// and the range asks for. The walk ends where the range or the groups
    /// end.
    pub fn next(&mut self) -> (r: Option<PartialBlockGroup>)
        requires
            old(self).wf(),
        ensures
            final(self).wf(),
            old(self).remaining() == 0 ==> r is None && *final(self) == *old(self),
            old(self).remaining() > 0 && total_bytes(old(self).remaining_groups()) <= old(
                self,
            ).skip() ==> r is None && final(self).remaining_groups().len() == 0,
            old(self).remaining() > 0 && old(self).skip() < total_bytes(old(self).remaining_groups())
                ==> (r matches Some(p) && p.offset < BLOCK_SIZE && 0 < p.len <= old(self).remaining()
                && old(self).skip() + p.len <= total_bytes(old(self).remaining_groups())
                && group_fits(p.group) && p.offset + p.len <= p.group.count * BLOCK_SIZE
                && p.group.count == spec_blocks_required_for((p.offset + p.len) as nat)
                && maps_range(p, old(self).remaining_groups(), old(self).skip() as int)
                && final(self).skip() == 0 && final(self).remaining() == old(self).remaining() - p.len
                && (final(self).remaining() > 0 ==> continues(
                final(self).remaining_groups(),
                old(self).remaining_groups(),
                old(self).skip() + p.len,
            ))),
    {
        if self.remaining_bytes == 0 {
            return None;
        }
        let ghost start_groups = self.remaining_groups();
        let ghost start_skip = self.skip_bytes as int;
        let ghost mut consumed: int = 0;
        proof {
            lemma_total_bytes_nonneg(start_groups);
        }
        while self.next_group < self.groups.len()
            invariant
                self.next_group <= self.groups@.len(),
                groups_fit(self.groups@),
                self.remaining_bytes > 0,
                self.remaining_bytes == old(self).remaining_bytes,
                self.groups@ == old(self).groups@,
                start_groups == old(self).remaining_groups(),
                start_skip == old(self).skip_bytes,
                consumed >= 0,
                self.skip_bytes == start_skip - consumed,
                total_bytes(start_groups) == consumed + total_bytes(self.remaining_groups()),
                forall|pos: int|
                    0 <= pos ==> byte_address(start_groups, consumed + pos) == byte_address(
                        self.remaining_groups(),
                        pos,
                    ),
            decreases self.groups@.len() - self.next_group,
        {
            let ghost before = self.remaining_groups();
            let g = self.groups[self.next_group];
            proof {
                assert(before[0] == g);
                assert(group_fits(self.groups@[self.next_group as int]));
                assert(self.groups@.skip(self.next_group + 1) =~= before.drop_first());
            }
            self.next_group = self.next_group + 1;
            let bytes = g.bytes();
            if self.skip_bytes >= bytes {
                self.skip_bytes = self.skip_bytes - bytes;
                proof {
                    assert forall|pos: int| 0 <= pos implies byte_address(
                        start_groups,
                        consumed + bytes + pos,
                    ) == byte_address(self.remaining_groups(), pos) by {
                        assert(byte_address(start_groups, consumed + (bytes + pos)) == byte_address(
                            before,
                            bytes + pos,
                        ));
                    }
                    consumed = consumed + bytes;
                }
                continue;
            }
            let offset = self.skip_bytes % (BLOCK_SIZE as u64);
            let blocks_to_skip = self.skip_bytes / (BLOCK_SIZE as u64);
            proof {
                vstd::arithmetic::div_mod::lemma_fundamental_div_mod(self.skip_bytes as int, 4096);
                lemma_total_bytes_nonneg(before.drop_first());
                assert(blocks_to_skip * BLOCK_SIZE + offset == self.skip_bytes);
                assert(blocks_to_skip < g.count) by (nonlinear_arith)
                    requires
                        blocks_to_skip * 4096 + offset < g.count * 4096,
                        0 <= offset,
                ;
            }
            let skipped = g.subgroup(blocks_to_skip);
            let available = skipped.bytes() - offset;
            proof {
                assert(skipped.count * BLOCK_SIZE == g.count * BLOCK_SIZE - blocks_to_skip * BLOCK_SIZE)
                    by (nonlinear_arith)
                    requires
                        skipped.count == g.count - blocks_to_skip,
                ;
            }
            let len = if self.remaining_bytes < available {
                self.remaining_bytes
            } else {
                available
            };
            let needed = blocks_required_for(offset + len);
            proof {
                assert(0 < needed <= skipped.count) by (nonlinear_arith)
                    requires
                        needed == spec_blocks_required_for((offset + len) as nat),
                        0 < offset + len <= skipped.count * 4096,
                ;
            }
            let part = skipped.shorten(needed);
            proof {
                assert(offset + len <= part.count * BLOCK_SIZE) by (nonlinear_arith)
                    requires
                        part.count == spec_blocks_required_for((offset + len) as nat),
                ;
                assert(part.count * BLOCK_SIZE <= skipped.count * BLOCK_SIZE) by (nonlinear_arith)
                    requires
                        part.count <= skipped.count,
                ;
                let p = PartialBlockGroup { group: part, offset, len };
                assert forall|i: int| 0 <= i < len implies #[trigger] part_address(p, i)
                    == byte_address(start_groups, start_skip + i) by {
                    assert(byte_address(start_groups, consumed + (self.skip_bytes + i))
                        == byte_address(before, self.skip_bytes + i));
                    assert(part.start@ * BLOCK_SIZE == g.start@ * BLOCK_SIZE + blocks_to_skip
                        * BLOCK_SIZE) by (nonlinear_arith)
                        requires
                            part.start@ == g.start@ + blocks_to_skip,
                    ;
                }
                if len == available {
                    assert(total_bytes(before) == g.count * BLOCK_SIZE + total_bytes(
                        before.drop_first(),
                    ));
                    assert(total_bytes(self.remaining_groups()) == total_bytes(start_groups) - (
                    start_skip + len));
                    assert forall|pos: int| 0 <= pos implies #[trigger] byte_address(
                        self.remaining_groups(),
                        pos,
                    ) == byte_address(start_groups, start_skip + len + pos) by {
                        assert(byte_address(start_groups, consumed + (bytes + pos)) == byte_address(
                            before,
                            bytes + pos,
                        ));
                    }
                }
            }
            self.skip_bytes = 0;
            self.remaining_bytes = self.remaining_bytes - len;
            let p = PartialBlockGroup { group: part, offset, len };
            assert(self.remaining_bytes > 0 ==> continues(
                self.remaining_groups(),
                old(self).remaining_groups(),
                old(self).skip() + p.len,
            ));
            return Some(p);
        }
        proof {
            assert(self.remaining_groups() =~= Seq::<BlockGroup>::empty());
        }
        None
    }
}

/// The list of block groups that holds the data of a file, in order.
#[derive(Debug, Clone)]
pub struct BlockList {
    groups: Vec<BlockGroup>,
}

impl BlockList {
    /// The groups of the list.
    pub closed spec fn view(&self) -> Seq<BlockGroup> {
        self.groups@
    }

    /// A list of the groups `groups`, each of which must fit, see [group_fits].
    pub fn from_groups(groups: Vec<BlockGroup>) -> (r: Self)
        requires
            groups_fit(groups@),
        ensures
            r.view() == groups@,
    {
        BlockList { groups }
    }

    /// A list of the single group `group`.
    pub fn from_group(group: BlockGroup) -> (r: Self)
        requires
            group_fits(group),
        ensures
            r.view() == seq![group],
    {
        let mut groups: Vec<BlockGroup> = Vec::new();
        groups.push(group);
        BlockList { groups }
    }

    /// A list of the single block `lba`.
    pub fn from_lba(lba: LBA) -> (r: Self)
        ensures
            r.view() == seq![BlockGroup { start: lba, count: 1 }],
    {
        BlockList::from_group(BlockGroup::new(lba, lba))
    }

    /// The groups of the list.
    pub fn as_slice(&self) -> (r: &[BlockGroup])
        ensures
            r@ == self.view(),
    {
        self.groups.as_slice()
    }

    /// The number of blocks in the list.
    pub fn block_count(&self) -> (r: u64)
        requires
            sum_counts(self.view()) <= u64::MAX,
        ensures
            r == sum_counts(self.view()),
    {
        let list = BlockGroupList { groups: self.groups.clone() };
        proof {
            assert(list.groups@ =~= self.groups@);
        }
        list.block_count()
    }

    /// The only group of a list of one group.
    pub fn single(&self) -> (r: BlockGroup)
        requires
            self.view().len() == 1,
        ensures
            r == self.view()[0],
    {
        self.groups[0]
    }

    /// Appends the groups of `list`.
    pub fn push(&mut self, list: BlockGroupList)
        requires
            groups_fit(list.groups@),
        ensures
            final(self).view() == old(self).view() + list.groups@,
    {
        let mut added = list.groups;
        self.groups.append(&mut added);
    }

    /// A walk over the parts of the groups that hold `bytes` bytes from
    /// `byte_offset` on, see [BlockListPartialIter::next].
    pub fn iter_partial(&self, byte_offset: u64, bytes: u64) -> (r: BlockListPartialIter)
        requires
            groups_fit(self.view()),
        ensures
            r.wf(),
            r.remaining_groups() == self.view(),
            r.skip() == byte_offset,
            r.remaining() == bytes,
    {
        let groups = self.groups.clone();
        proof {
            assert(groups@ =~= self.groups@);
        }
        BlockListPartialIter::new(groups, byte_offset, bytes)
    }
}

/// Where the block list of a file is: on the device, in memory, or both.
#[derive(Debug)]
pub enum BlockListAccess {
    /// Only on the device
    OnDevice(BlockListHead),
    /// Only in memory
    InMem(BlockList),
    /// In memory, and the same list on the device
    Both(BlockList, BlockListHead),
}

impl BlockListAccess {
    /// The list in memory, which must have been read.
    pub fn get_list(&self) -> (r: &BlockList)
        requires
            !(self is OnDevice),
        ensures
            match self {
                BlockListAccess::InMem(list) => *r == list,
                BlockListAccess::Both(list, _) => *r == list,
                BlockListAccess::OnDevice(_) => false,
            },
    {
        match self {
            BlockListAccess::InMem(list) | BlockListAccess::Both(list, _) => list,
            BlockListAccess::OnDevice(_) => {
                assert(false);
                unreached()
            },
        }
    }
}

/// An entry of a directory: a name and the node it names.
#[derive(Debug)]
pub struct DirectoryEntry {
    /// The name
    pub name: String,
    /// The node
    pub id: FileId,
}

/// A directory in memory.
#[derive(Debug)]
pub struct Directory {
    /// The directory that holds this one; `None` for the root
    pub parent_id: Option<FileId>,
    /// The entries
    pub entries: Vec<DirectoryEntry>,
}

impl Directory {
    /// The empty root directory of a file system.
    pub fn create_root() -> (r: Self)
        ensures
            r.parent_id is None,
            r.entries@.len() == 0,
    {
        Directory { parent_id: None, entries: Vec::new() }
    }

    /// An empty directory inside the directory `parent_id`.
    pub fn empty(parent_id: FileId) -> (r: Self)
        ensures
            r.parent_id == Some(parent_id),
            r.entries@.len() == 0,
    {
        Directory { parent_id: Some(parent_id), entries: Vec::new() }
    }
}

/// A change of a directory that is yet to be written.
#[derive(Debug)]
pub enum DirectoryChange {
    /// The directory `dir_id` was created
    Created { dir_id: FileId, dir: Directory },
    /// The entry `entry` was added to the directory `dir_id`
    InsertFile { dir_id: FileId, entry: DirectoryEntry },
}

} // verus!
