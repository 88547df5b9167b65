//! The structures the file system stores on its device.

use vstd::prelude::*;

use core::marker::PhantomData;

use crate::wfs::lba::{BlockGroup, LBA};

verus! {

/// A marker trait describing structs that can be constructed from a block
/// read from a device.
pub trait BlockConstructable {}

/// A pointer of type `T` into a block device.
#[derive(Debug)]
pub struct DevicePointer<T> {
    /// The block the value lies in
    pub lba: LBA,
    /// The type of the value pointed to
    pub _block_type: PhantomData<T>,
}

impl<T> Clone for DevicePointer<T> {
    fn clone(&self) -> (r: Self)
        ensures
            r == *self,
    {
        DevicePointer { lba: self.lba, _block_type: PhantomData }
    }
}

impl<T> DevicePointer<T> {
    /// A pointer to the value in block `lba`.
    pub fn new(lba: LBA) -> (r: Self)
        ensures
            r.lba == lba,
    {
        DevicePointer { lba, _block_type: PhantomData }
    }
}

/// A list of [BlockGroup]s, continued in the block `next` where it does not fit
/// into one block.
#[derive(Debug)]
pub struct BlockList {
    /// A list of [BlockGroup]s
    pub blocks: Vec<BlockGroup>,
    /// The next [BlockList] pointer in case this block is not large enough
    pub next: Option<DevicePointer<BlockList>>,
}

impl BlockConstructable for BlockList {}

/// Either a single [BlockGroup] or a [DevicePointer] to a [BlockList]
#[derive(Debug)]
pub enum BlockListHead {
    /// The data lies in a single group of blocks
    Single(BlockGroup),
    /// The data lies in the groups of a [BlockList]
    List(DevicePointer<BlockList>),
}

impl From<LBA> for BlockListHead {
    fn from(value: LBA) -> (r: Self) {
        BlockListHead::Single(BlockGroup::with_count(value, 1))
    }
}

impl vstd::std_specs::convert::FromSpecImpl<LBA> for BlockListHead {
    open spec fn obeys_from_spec() -> bool {
        true
    }

    open spec fn from_spec(v: LBA) -> Self {
        BlockListHead::Single(BlockGroup { start: v, count: 1 })
    }
}

/// A unique identifier of a node, unique within one file system.
#[derive(Debug, Clone, Copy, PartialEq, Eq, Structural, PartialOrd, Ord, Hash)]
pub struct FileId(u64);

impl FileId {
    /// The number of the id.
    pub closed spec fn id(self) -> u64 {
        self.0
    }

    #[verifier::type_invariant]
    spec fn never_zero(self) -> bool {
        self.0 != 0
    }

    /// The id with the number `id`, which must not be zero.
    pub fn new(id: u64) -> (r: Self)
        requires
            id != 0,
        ensures
            r.id() == id,
    {
        FileId(id)
    }

    /// The id with the number `id`, or `None` if `id` is zero.
    pub fn try_new(id: u64) -> (r: Option<Self>)
        ensures
            id == 0 ==> r is None,
            id != 0 ==> (r matches Some(f) && f.id() == id),
    {
        if id == 0 {
            None
        } else {
            Some(FileId(id))
        }
    }

    /// The number of the id.
    pub fn get(self) -> (r: u64)
        ensures
            r == self.id(),
            r != 0,
    {
        proof {
            use_type_invariant(self);
        }
        self.0
    }

    /// The id that follows this one; this must not be the largest id.
    pub fn next(self) -> (r: Self)
        requires
            self.id() < u64::MAX,
        ensures
            r.id() == self.id() + 1,
    {
        FileId(self.0 + 1)
    }

    /// The smallest id.
    pub fn min() -> (r: Self)
        ensures
            r.id() == 1,
    {
        FileId(1)
    }

    /// The largest id.
    pub fn max() -> (r: Self)
        ensures
            r.id() == u64::MAX,
    {
        FileId(u64::MAX)
    }

    /// The id of the root node.
    pub fn root() -> (r: Self)
        ensures
            r.id() == 1,
    {
        FileId(1)
    }
}

/// The kind of a node.
#[derive(Debug, Clone, Copy, PartialEq, Eq, Structural)]
pub enum FileType {
    File,
    Directory,
}

/// A timestamp, a placeholder that reserves its place on the device.
#[derive(Debug, Clone, Copy, PartialEq, Eq, Structural)]
pub struct Timestamp(u64);

impl Timestamp {
    /// The value of the timestamp.
    pub closed spec fn value(self) -> u64 {
        self.0
    }

    /// The timestamp zero.
    pub fn zero() -> (r: Self)
        ensures
            r.value() == 0,
    {
        Timestamp(0)
    }

    /// The value of the timestamp.
    pub fn get(self) -> (r: u64)
        ensures
            r == self.value(),
    {
        self.0
    }
}

/// A set of permissions, held as bits.
#[derive(Debug, Clone, Copy, PartialEq, Eq, Structural)]
pub struct Perm {
    /// The bits of the permissions: execute, write and read from the lowest up.
    pub bits: u8,
}

impl Perm {
    /// The permission to execute.
    pub fn execute() -> (r: Self)
        ensures
            r.bits == 1,
    {
        Perm { bits: 1 }
    }

    /// The permission to write.
    pub fn write() -> (r: Self)
        ensures
            r.bits == 2,
    {
        Perm { bits: 2 }
    }

    /// The permission to read.
    pub fn read() -> (r: Self)
        ensures
            r.bits == 4,
    {
        Perm { bits: 4 }
    }

    /// No permission.
    pub fn empty() -> (r: Self)
        ensures
            r.bits == 0,
    {
        Perm { bits: 0 }
    }

    /// All permissions.
    pub fn all() -> (r: Self)
        ensures
            r.bits == 7,
    {
        Perm { bits: 7 }
    }

    /// The permissions of both sets.
    pub fn union(self, other: Self) -> (r: Self)
        ensures
            r.bits == self.bits | other.bits,
    {
        Perm { bits: self.bits | other.bits }
    }

    /// Whether this set holds every permission of `other`.
    pub fn contains(self, other: Self) -> (r: bool)
        ensures
            r == (self.bits & other.bits == other.bits),
    {
        self.bits & other.bits == other.bits
    }

    /// Whether the set is empty.
    pub fn is_empty(self) -> (r: bool)
        ensures
            r == (self.bits == 0),
    {
        self.bits == 0
    }
}

/// The union of two sets of permissions holds every permission of each of
/// them, and holds no permission that neither holds.
pub proof fn lemma_union_contains(a: Perm, b: Perm, p: Perm)
    ensures
        (a.bits | b.bits) & a.bits == a.bits,
        (a.bits | b.bits) & b.bits == b.bits,
        (a.bits & p.bits == p.bits || b.bits & p.bits == p.bits) ==> (a.bits | b.bits) & p.bits
            == p.bits,
        p.bits & !(a.bits | b.bits) != 0 ==> (a.bits & p.bits != p.bits && b.bits & p.bits
            != p.bits),
{
    let x = a.bits;
    let y = b.bits;
    let z = p.bits;
    assert((x | y) & x == x) by (bit_vector);
    assert((x | y) & y == y) by (bit_vector);
    assert((x & z == z || y & z == z) ==> (x | y) & z == z) by (bit_vector);
    assert(z & !(x | y) != 0 ==> (x & z != z && y & z != z)) by (bit_vector);
}

/// Whether the file system is ready.
#[derive(Debug, Clone, Copy, PartialEq, Eq, Structural)]
pub enum FsStatus {
    /// The file system is not yet initialized
    Uninitialized,
    /// The file system is ready and can be used
    Ready,
}

impl Default for FsStatus {
    fn default() -> (r: Self)
        ensures
            r == FsStatus::Uninitialized,
    {
        FsStatus::Uninitialized
    }
}

/// The magic at the start of a [MainTransientHeader]: `WaTh`.
pub open spec fn transient_magic() -> Seq<u8> {
    seq![87u8, 97u8, 84u8, 104u8]
}

/// The part of the main header that describes the current use of the file
/// system.
#[derive(Debug, Clone, Copy, PartialEq, Eq)]
pub struct MainTransientHeader {
    /// [MainTransientHeader::magic], if the header is valid
    pub magic: [u8; 4],
    /// The number of mounts that currently use the file system
    pub mount_count: u8,
    /// Whether one of the mounts may write
    pub open_in_write_mode: bool,
    /// Whether the file system is ready
    pub status: FsStatus,
}

impl MainTransientHeader {
    /// The magic at the start of the header: `WaTh`.
    pub fn magic() -> (r: [u8; 4])
        ensures
            r@ == transient_magic(),
    {
        [87u8, 97u8, 84u8, 104u8]
    }
}

impl Default for MainTransientHeader {
    fn default() -> (r: Self)
        ensures
            r.magic@ == transient_magic(),
            r.mount_count == 0,
            !r.open_in_write_mode,
            r.status == FsStatus::Uninitialized,
    {
        MainTransientHeader {
            magic: MainTransientHeader::magic(),
            mount_count: 0,
            open_in_write_mode: false,
            status: FsStatus::Uninitialized,
        }
    }
}

} // verus!
