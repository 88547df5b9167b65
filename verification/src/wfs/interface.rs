//! The interface to a block device, and descriptions of writes to it.

use vstd::prelude::*;

use super::block_allocator::{
    block_seq, lemma_block_seq_len, lemma_sum_counts_front, lemma_sum_counts_prefix, sum_counts,
    BlockGroupList,
};
use super::lba::{BlockGroup, LBA, BLOCK_SIZE};

verus! {

/// Either an error of the block device or a failed memory allocation.
#[derive(Debug, Clone, Copy, PartialEq, Eq)]
pub enum BlockDeviceOrMemError<BDError> {
    /// Block device error
    BlockDevice(BDError),
    /// Failed to allocate memory(RAM)
    Allocation,
}

/// A device that stores data in blocks of [BLOCK_SIZE] bytes.
///
/// This is implemented by the users of the file system.
pub trait BlockDevice {
    /// The error the device reports.
    type BlockDeviceError;

    /// Returns the number of blocks in the [BlockDevice]
    fn max_block_count(&self) -> Result<u64, Self::BlockDeviceError>;

    /// Read a block from the device
    fn read_block(&self, lba: LBA) -> (r: Result<Vec<u8>, Self::BlockDeviceError>)
        ensures
            r matches Ok(data) ==> data@.len() == BLOCK_SIZE,
    ;

    /// Read multiple contigious blocks from the device
    fn read_blocks_contig(&self, start: LBA, block_count: u64) -> (r: Result<
        Vec<u8>,
        Self::BlockDeviceError,
    >)
        ensures
            r matches Ok(data) ==> data@.len() == block_count * BLOCK_SIZE,
    ;

    /// Write a block to the device
    fn write_block(&mut self, lba: LBA, data: &[u8]) -> Result<(), Self::BlockDeviceError>
        requires
            data@.len() == BLOCK_SIZE,
    ;

    /// Write multiple blocks to the device, starting at `start`
    fn write_blocks_contig(&mut self, start: LBA, data: &[u8]) -> Result<(), Self::BlockDeviceError>
        requires
            data@.len() % (BLOCK_SIZE as nat) == 0,
    ;

    /// Atomically read a block from the device
    ///
    /// If the device does not support atomic access, this should be implemented using a lock
    fn read_block_atomic(&self, lba: LBA) -> (r: Result<Vec<u8>, Self::BlockDeviceError>)
        ensures
            r matches Ok(data) ==> data@.len() == BLOCK_SIZE,
    ;

    /// Atomically write a block to the device
    ///
    /// If the device does not support atomic access, this should be implemented using a lock
    fn write_block_atomic(&mut self, lba: LBA, data: &[u8]) -> Result<(), Self::BlockDeviceError>
        requires
            data@.len() == BLOCK_SIZE,
    ;

    /// Atomically compare and exchange a block on the device: the block is
    /// set to `new` if it holds `current`; otherwise it is left as it is and
    /// what it holds is returned as the inner error.
    ///
    /// If the device does not support atomic access, this should be implemented using a lock
    fn compare_exchange_block(&mut self, lba: LBA, current: &[u8], new: &[u8]) -> (r: Result<
        Result<(), Vec<u8>>,
        Self::BlockDeviceError,
    >)
        requires
            current@.len() == BLOCK_SIZE,
            new@.len() == BLOCK_SIZE,
        ensures
            r matches Ok(Err(found)) ==> found@.len() == BLOCK_SIZE,
    ;

    /// Read the blocks of `groups` from the device, one group after the
    /// other, see [BlockDevice::read_block_group].
    fn read_blocks(&self, groups: &Vec<BlockGroup>) -> (r: Result<
        Vec<u8>,
        BlockDeviceOrMemError<Self::BlockDeviceError>,
    >)
        requires
            sum_counts(groups@) * BLOCK_SIZE <= usize::MAX,
        ensures
            r matches Ok(data) ==> data@.len() == sum_counts(groups@) * BLOCK_SIZE,
            groups@.len() == 0 ==> r is Ok,
            r matches Err(e) ==> e is BlockDevice,
    {
        let mut data: Vec<u8> = Vec::new();
        let mut i: usize = 0;
        while i < groups.len()
            invariant
                i <= groups@.len(),
                sum_counts(groups@) * BLOCK_SIZE <= usize::MAX,
                data@.len() == sum_counts(groups@.take(i as int)) * BLOCK_SIZE,
            decreases groups@.len() - i,
        {
            proof {
                assert(groups@.take(i + 1).drop_last() =~= groups@.take(i as int));
                lemma_sum_counts_prefix(groups@, i + 1);
            }
            match self.read_block_group(groups[i]) {
                Ok(mut part) => data.append(&mut part),
                Err(e) => return Err(BlockDeviceOrMemError::BlockDevice(e)),
            }
            i += 1;
        }
        proof {
            assert(groups@.take(i as int) =~= groups@);
        }
        Ok(data)
    }

    /// Read a [BlockGroup] from the device
    fn read_block_group(&self, group: BlockGroup) -> (r: Result<Vec<u8>, Self::BlockDeviceError>)
        ensures
            r matches Ok(data) ==> data@.len() == group.count * BLOCK_SIZE,
    {
        self.read_blocks_contig(group.start, group.count())
    }

    /// Write data to a [BlockGroup]; the data must fit into the group.
    fn write_block_group(&mut self, group: BlockGroup, data: &[u8]) -> Result<
        (),
        Self::BlockDeviceError,
    >
        requires
            data@.len() <= group.count * BLOCK_SIZE,
            data@.len() % (BLOCK_SIZE as nat) == 0,
    {
        self.write_blocks_contig(group.start, data)
    }
}

/// Data to write to a list of blocks: the data itself, preceded by the part of
/// the first block that is kept and followed by the part of the last block
/// that is kept.
pub struct WriteData<'a> {
    /// the data to write
    pub data: &'a [u8],
    /// the start of the first block, which is written unchanged
    pub old_block_start: &'a [u8],
    /// the end of the last block, which is written unchanged
    pub old_block_end: &'a [u8],
}

impl WriteData<'_> {
    /// The total number of bytes that are written.
    pub open spec fn spec_total_len(&self) -> nat {
        self.data@.len() + self.old_block_start@.len() + self.old_block_end@.len()
    }

    /// The total number of bytes that are written.
    pub fn total_len(&self) -> (r: usize)
        requires
            self.spec_total_len() <= usize::MAX,
        ensures
            r == self.spec_total_len(),
    {
        self.data.len() + self.old_block_start.len() + self.old_block_end.len()
    }

    /// Whether the parts are valid: the kept start and end each are shorter
    /// than a block, and together with the data they fill whole blocks.
    pub open spec fn spec_is_valid(&self) -> bool {
        &&& self.old_block_start@.len() < BLOCK_SIZE
        &&& self.old_block_end@.len() < BLOCK_SIZE
        &&& self.spec_total_len() % (BLOCK_SIZE as nat) == 0
    }

    /// Whether the parts are valid, see [Self::spec_is_valid].
    pub fn is_valid(&self) -> (r: bool)
        requires
            self.spec_total_len() <= usize::MAX,
        ensures
            r == self.spec_is_valid(),
    {
        if self.old_block_start.len() >= BLOCK_SIZE {
            return false;
        }
        if self.old_block_end.len() >= BLOCK_SIZE {
            return false;
        }
        if self.total_len() % BLOCK_SIZE != 0 {
            return false;
        }
        true
    }
}

impl WriteData<'_> {
    /// The bytes that are written, in order: the kept start of the first
    /// block, the data, and the kept end of the last block.
    pub open spec fn spec_bytes(&self) -> Seq<u8> {
        self.old_block_start@ + self.data@ + self.old_block_end@
    }
}

/// Plans writing `data` to the blocks of `groups`: one entry per block, in
/// the order of the groups and of the blocks in each group, with the
/// [BLOCK_SIZE] bytes of [WriteData::spec_bytes] that the block receives.
/// The data must fill the groups exactly.
pub fn plan_block_writes(groups: &Vec<BlockGroup>, data: &WriteData) -> (r: Vec<(LBA, Vec<u8>)>)
    requires
        forall|i: int| 0 <= i < groups@.len() ==> (#[trigger] groups@[i]).wf(),
        data.spec_is_valid(),
        sum_counts(groups@) * BLOCK_SIZE == data.spec_total_len(),
        data.spec_total_len() <= usize::MAX,
    ensures
        r@.len() == block_seq(groups@).len(),
        forall|i: int|
            0 <= i < r@.len() ==> (#[trigger] r@[i]).0@ == block_seq(groups@)[i] && r@[i].1@
                == data.spec_bytes().subrange(i * BLOCK_SIZE, (i + 1) * BLOCK_SIZE),
        forall|i: int| 0 <= i < r@.len() ==> (#[trigger] r@[i]).1@.len() == BLOCK_SIZE,
{
    let list = BlockGroupList { groups: groups.clone() };
    proof {
        assert(list.groups@ =~= groups@);
        lemma_block_seq_len(groups@);
        lemma_sum_counts_front(groups@);
    }
    let lbas = list.blocks();
    let mut bytes = vstd::slice::slice_to_vec(data.old_block_start);
    let mut middle = vstd::slice::slice_to_vec(data.data);
    bytes.append(&mut middle);
    let mut end = vstd::slice::slice_to_vec(data.old_block_end);
    bytes.append(&mut end);
    let n = lbas.len();
    proof {
        assert(lbas@.map_values(|l: LBA| l@ as int).len() == lbas@.len());
        assert(bytes@ =~= data.spec_bytes());
    }
    let mut plan: Vec<(LBA, Vec<u8>)> = Vec::new();
    let mut i: usize = 0;
    while i < n
        invariant
            n == lbas@.len(),
            lbas@.map_values(|l: LBA| l@ as int) == block_seq(groups@),
            bytes@ == data.spec_bytes(),
            bytes@.len() == n * BLOCK_SIZE,
            n * BLOCK_SIZE <= usize::MAX,
            i <= n,
            plan@.len() == i,
            forall|k: int|
                0 <= k < i ==> (#[trigger] plan@[k]).0@ == block_seq(groups@)[k] && plan@[k].1@
                    == data.spec_bytes().subrange(k * BLOCK_SIZE, (k + 1) * BLOCK_SIZE),
            forall|k: int| 0 <= k < i ==> (#[trigger] plan@[k]).1@.len() == BLOCK_SIZE,
        decreases n - i,
    {
        proof {
            assert((i + 1) * BLOCK_SIZE <= n * BLOCK_SIZE) by (nonlinear_arith)
                requires
                    i < n,
            ;
        }
        let start = i * BLOCK_SIZE;
        let chunk = vstd::slice::slice_to_vec(
            vstd::slice::slice_subrange(bytes.as_slice(), start, start + BLOCK_SIZE),
        );
        proof {
            assert(lbas@.map_values(|l: LBA| l@ as int)[i as int] == lbas@[i as int]@ as int);
        }
        plan.push((lbas[i], chunk));
        i += 1;
    }
    plan
}

/// Write `data` to the blocks of `groups`, block by block in the order of
/// the groups, see [plan_block_writes]. The data must fill the groups
/// exactly. Stops at the first block that the device fails to write.
///
/// Whether each write succeeds is up to the device: with no groups there is
/// nothing to write and the call succeeds, and every error is one that the
/// device reported.
pub fn write_blocks<D: BlockDevice>(device: &mut D, groups: &Vec<BlockGroup>, data: &WriteData) -> (r: Result<
    (),
    BlockDeviceOrMemError<D::BlockDeviceError>,
>)
    requires
        forall|i: int| 0 <= i < groups@.len() ==> (#[trigger] groups@[i]).wf(),
        data.spec_is_valid(),
        sum_counts(groups@) * BLOCK_SIZE == data.spec_total_len(),
        data.spec_total_len() <= usize::MAX,
    ensures
        groups@.len() == 0 ==> r is Ok,
        r matches Err(e) ==> e is BlockDevice,
{
    let plan = plan_block_writes(groups, data);
    proof {
        if groups@.len() == 0 {
            assert(block_seq(groups@).len() == 0);
        }
    }
    let mut i: usize = 0;
    while i < plan.len()
        invariant
            i <= plan@.len(),
            groups@.len() == 0 ==> plan@.len() == 0,
            forall|k: int| 0 <= k < plan@.len() ==> (#[trigger] plan@[k]).1@.len() == BLOCK_SIZE,
        decreases plan@.len() - i,
    {
        let entry = &plan[i];
        proof {
            assert(plan@[i as int].1@.len() == BLOCK_SIZE);
        }
        match device.write_block(entry.0, entry.1.as_slice()) {
            Ok(()) => {},
            Err(e) => return Err(BlockDeviceOrMemError::BlockDevice(e)),
        }
        i += 1;
    }
    Ok(())
}


/// A [BlockDevice] that fails every access.
#[derive(Debug, Clone, Copy)]
pub struct TestBlockDevice;

/// The error of the [TestBlockDevice]: it should never be accessed.
#[derive(Debug, Clone, Copy, PartialEq, Eq)]
pub struct TestBlockDeviceError;

impl BlockDevice for TestBlockDevice {
    type BlockDeviceError = TestBlockDeviceError;

    fn max_block_count(&self) -> (r: Result<u64, Self::BlockDeviceError>)
        ensures
            r == Ok::<u64, TestBlockDeviceError>(0),
    {
        Ok(0)
    }

    fn read_block(&self, lba: LBA) -> (r: Result<Vec<u8>, Self::BlockDeviceError>)
        ensures
            r is Err,
    {
        Err(TestBlockDeviceError)
    }

    fn read_blocks_contig(&self, start: LBA, block_count: u64) -> (r: Result<
        Vec<u8>,
        Self::BlockDeviceError,
    >)
        ensures
            r is Err,
    {
        Err(TestBlockDeviceError)
    }

    fn write_block(&mut self, lba: LBA, data: &[u8]) -> (r: Result<(), Self::BlockDeviceError>)
        ensures
            r is Err,
    {
        Err(TestBlockDeviceError)
    }

    fn write_blocks_contig(&mut self, start: LBA, data: &[u8]) -> (r: Result<
        (),
        Self::BlockDeviceError,
    >)
        ensures
            r is Err,
    {
        Err(TestBlockDeviceError)
    }

    fn read_block_atomic(&self, lba: LBA) -> (r: Result<Vec<u8>, Self::BlockDeviceError>)
        ensures
            r is Err,
    {
        Err(TestBlockDeviceError)
    }

    fn write_block_atomic(&mut self, lba: LBA, data: &[u8]) -> (r: Result<(), Self::BlockDeviceError>)
        ensures
            r is Err,
    {
        Err(TestBlockDeviceError)
    }

    fn compare_exchange_block(&mut self, lba: LBA, current: &[u8], new: &[u8]) -> (r: Result<
        Result<(), Vec<u8>>,
        Self::BlockDeviceError,
    >)
        ensures
            r is Err,
    {
        Err(TestBlockDeviceError)
    }
}

} // verus!
