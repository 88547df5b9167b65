//! Detection of file systems that already exist on a block device.

use vstd::prelude::*;

use super::interface::BlockDevice;
use super::lba::{LBA, BLOCK_SIZE};

verus! {

/// The possible Filesystems we can check for
#[derive(Debug, Clone, Copy, PartialEq, Eq, Hash)]
pub enum FsFound {
    /// No file system was found
    NotFound,
    /// A Wasabi file system of the given version
    WasabiFs { version: [u8; 4] },
    /// FAT16
    Fat16,
    /// FAT32
    Fat32,
    /// NTFS
    Ntfs,
    /// ext2, ext3 or ext4
    Ext,
    /// XFS
    Xfs,
    /// Btrfs
    Btrfs,
}

/// The magic string at the start of the main header of a Wasabi file system.
pub open spec fn wasabi_magic() -> Seq<u8> {
    seq![87u8, 97u8, 115u8, 97u8, 98u8, 105u8, 70u8, 115u8]
}

/// The file systems that are recognized by a magic byte string at a byte
/// offset on the device: the file system, the offset and the magic.
pub open spec fn spec_fs_magics() -> Seq<(FsFound, u64, Seq<u8>)> {
    seq![
        (FsFound::Fat16, 0x36u64, seq![70u8, 65u8, 84u8, 49u8, 54u8]),
        (FsFound::Fat32, 0x36u64, seq![70u8, 65u8, 84u8, 51u8, 50u8]),
        (FsFound::Ntfs, 0x03u64, seq![78u8, 84u8, 70u8, 83u8]),
        (FsFound::Ext, 0x438u64, seq![0x53u8, 0xefu8]),
        (FsFound::Xfs, 0x0u64, seq![88u8, 70u8, 83u8, 66u8]),
        (FsFound::Btrfs, 0x10040u64, seq![95u8, 66u8, 72u8, 82u8, 102u8, 115u8, 95u8, 77u8]),
    ]
}

/// The number of file systems recognized by a magic.
pub const FS_MAGIC_COUNT: usize = 6;

/// The entry `i` of the table of file system magics, see [spec_fs_magics].
pub fn fs_magic(i: usize) -> (r: (FsFound, u64, Vec<u8>))
    requires
        i < FS_MAGIC_COUNT,
    ensures
        r.0 == spec_fs_magics()[i as int].0,
        r.1 == spec_fs_magics()[i as int].1,
        r.2@ == spec_fs_magics()[i as int].2,
{
    let r = if i == 0 {
        (FsFound::Fat16, 0x36u64, vec![70u8, 65u8, 84u8, 49u8, 54u8])
    } else if i == 1 {
        (FsFound::Fat32, 0x36u64, vec![70u8, 65u8, 84u8, 51u8, 50u8])
    } else if i == 2 {
        (FsFound::Ntfs, 0x03u64, vec![78u8, 84u8, 70u8, 83u8])
    } else if i == 3 {
        (FsFound::Ext, 0x438u64, vec![0x53u8, 0xefu8])
    } else if i == 4 {
        (FsFound::Xfs, 0x0u64, vec![88u8, 70u8, 83u8, 66u8])
    } else {
        (FsFound::Btrfs, 0x10040u64, vec![95u8, 66u8, 72u8, 82u8, 102u8, 115u8, 95u8, 77u8])
    };
    proof {
        assert(r.2@ =~= spec_fs_magics()[i as int].2);
    }
    r
}

/// Whether `block` holds `magic` at `offset`.
pub fn magic_matches(block: &[u8], offset: usize, magic: &[u8]) -> (r: bool)
    ensures
        r == (offset + magic@.len() <= block@.len() && block@.subrange(
            offset as int,
            offset + magic@.len(),
        ) == magic@),
{
    if offset > block.len() || magic.len() > block.len() - offset {
        return false;
    }
    let mut i: usize = 0;
    while i < magic.len()
        invariant
            i <= magic@.len(),
            offset + magic@.len() <= block@.len(),
            block@.len() <= usize::MAX,
            forall|k: int| 0 <= k < i ==> block@[offset + k] == magic@[k],
        decreases magic@.len() - i,
    {
        if block[offset + i] != magic[i] {
            proof {
                assert(block@.subrange(offset as int, offset + magic@.len())[i as int] != magic@[i as int]);
            }
            return false;
        }
        i += 1;
    }
    proof {
        assert(block@.subrange(offset as int, offset + magic@.len()) =~= magic@);
    }
    true
}

/// What the main header block of a device says about a Wasabi file system: its
/// version if the block starts with the magic string, [FsFound::NotFound] otherwise.
pub open spec fn spec_wasabifs_in_block(block: Seq<u8>) -> FsFound {
    if block.len() >= 12 && block.subrange(0, 8) == wasabi_magic() {
        FsFound::WasabiFs { version: [block[8], block[9], block[10], block[11]] }
    } else {
        FsFound::NotFound
    }
}

/// Checks a main header block for a Wasabi file system, see [spec_wasabifs_in_block].
pub fn wasabifs_in_block(block: &[u8]) -> (r: FsFound)
    ensures
        r == spec_wasabifs_in_block(block@),
{
    let magic = [87u8, 97u8, 115u8, 97u8, 98u8, 105u8, 70u8, 115u8];
    proof {
        assert(magic@ =~= wasabi_magic());
    }
    if block.len() >= 12 && magic_matches(block, 0, magic.as_slice()) {
        FsFound::WasabiFs { version: [block[8], block[9], block[10], block[11]] }
    } else {
        FsFound::NotFound
    }
}

/// What a device of `block_count` blocks whose main header block (block 0)
/// holds `header` says about a Wasabi file system: a device without blocks
/// has none, else see [spec_wasabifs_in_block].
pub open spec fn spec_wasabifs_on_device(block_count: u64, header: Seq<u8>) -> FsFound {
    if block_count == 0 {
        FsFound::NotFound
    } else {
        spec_wasabifs_in_block(header)
    }
}

/// What a device of `block_count` blocks with the main header block `header`
/// says about a Wasabi file system, see [spec_wasabifs_on_device]; `header`
/// is not looked at where the device has no blocks.
pub fn wasabifs_on_device(block_count: u64, header: &[u8]) -> (r: FsFound)
    ensures
        r == spec_wasabifs_on_device(block_count, header@),
{
    if block_count == 0 {
        FsFound::NotFound
    } else {
        wasabifs_in_block(header)
    }
}

/// Tries to check if there is a Wasabi file system on the device, by reading
/// its main header block (block 0) if the device has one, see
/// [wasabifs_on_device].
pub fn check_for_wasabifs<D: BlockDevice>(device: &D) -> (r: Result<FsFound, D::BlockDeviceError>)
    ensures
        r matches Ok(found) ==> (found is NotFound || found is WasabiFs),
        r matches Ok(found) ==> exists|block_count: u64, header: Seq<u8>|
            found == spec_wasabifs_on_device(block_count, header),
{
    let block_lba = LBA::new(0).unwrap();
    let max = device.max_block_count()?;
    if max == 0 {
        let found = wasabifs_on_device(max, &[]);
        proof {
            assert(found == spec_wasabifs_on_device(max, Seq::<u8>::empty()));
        }
        return Ok(found);
    }
    let block = device.read_block(block_lba)?;
    let found = wasabifs_on_device(max, block.as_slice());
    proof {
        assert(found == spec_wasabifs_on_device(max, block@));
    }
    Ok(found)
}

/// The block that holds the byte at the offset of entry `i` of
/// [spec_fs_magics], on a device of `block_count` blocks: `None` where the
/// device is too small to have it.
pub open spec fn spec_magic_block(i: int, block_count: u64) -> Option<u64> {
    let block = spec_fs_magics()[i].1 / (BLOCK_SIZE as u64);
    if block < block_count {
        Some(block)
    } else {
        None
    }
}

/// The block to read for entry `i` of [spec_fs_magics] on a device of
/// `block_count` blocks, see [spec_magic_block].
pub fn magic_block(i: usize, block_count: u64) -> (r: Option<LBA>)
    requires
        i < FS_MAGIC_COUNT,
    ensures
        match spec_magic_block(i as int, block_count) {
            Some(block) => r matches Some(lba) && lba@ == block,
            None => r is None,
        },
{
    let (_, offset, _) = fs_magic(i);
    let block = offset / BLOCK_SIZE as u64;
    if block < block_count {
        LBA::new(block)
    } else {
        None
    }
}

/// Whether `block`, the block that holds the byte at the offset of entry `i`
/// of [spec_fs_magics], holds that entry's magic at that offset.
pub open spec fn spec_magic_in_block(i: int, block: Seq<u8>) -> bool {
    let offset = spec_fs_magics()[i].1 % (BLOCK_SIZE as u64);
    let magic = spec_fs_magics()[i].2;
    offset + magic.len() <= block.len() && block.subrange(offset as int, offset + magic.len()) == magic
}

/// The first file system of [spec_fs_magics], from entry `i` on, whose magic
/// `blocks` hold: `blocks[j]` is the block read for entry `j`, or `None`
/// where the device has no such block.
pub open spec fn spec_first_magic(blocks: Seq<Option<Vec<u8>>>, i: int) -> FsFound
    decreases spec_fs_magics().len() - i,
{
    if i < 0 || i >= spec_fs_magics().len() || i >= blocks.len() {
        FsFound::NotFound
    } else if blocks[i] matches Some(block) && spec_magic_in_block(i, block@) {
        spec_fs_magics()[i].0
    } else {
        spec_first_magic(blocks, i + 1)
    }
}

/// The file system that the blocks read from a device show: a Wasabi file
/// system where `wasabi` says so, else the first file system of
/// [spec_fs_magics] whose magic the blocks hold, else [FsFound::NotFound].
pub open spec fn spec_fs_in_blocks(wasabi: FsFound, blocks: Seq<Option<Vec<u8>>>) -> FsFound {
    if wasabi is WasabiFs {
        wasabi
    } else {
        spec_first_magic(blocks, 0)
    }
}

/// What [spec_first_magic] finds is [FsFound::NotFound] or a file system of
/// the table from entry `i` on.
pub proof fn lemma_first_magic_found(blocks: Seq<Option<Vec<u8>>>, i: int)
    requires
        0 <= i,
    ensures
        spec_first_magic(blocks, i) is NotFound || exists|j: int|
            i <= j < spec_fs_magics().len() && spec_fs_magics()[j].0 == spec_first_magic(blocks, i),
    decreases spec_fs_magics().len() - i,
{
    if i < spec_fs_magics().len() && i < blocks.len() {
        lemma_first_magic_found(blocks, i + 1);
    }
}

/// The file system that the blocks read from a device show, see
/// [spec_fs_in_blocks]: `wasabi` is what [check_for_wasabifs] found, and
/// `blocks[i]` the block that holds the offset of entry `i` of
/// [spec_fs_magics], if the device has it.
pub fn fs_in_blocks(wasabi: FsFound, blocks: &Vec<Option<Vec<u8>>>) -> (r: FsFound)
    ensures
        r == spec_fs_in_blocks(wasabi, blocks@),
{
    if let FsFound::WasabiFs { version } = wasabi {
        return FsFound::WasabiFs { version };
    }
    let mut i: usize = 0;
    while i < FS_MAGIC_COUNT && i < blocks.len()
        invariant
            i <= FS_MAGIC_COUNT,
            !(wasabi is WasabiFs),
            spec_first_magic(blocks@, 0) == spec_first_magic(blocks@, i as int),
        decreases FS_MAGIC_COUNT - i,
    {
        let (fs, offset, magic) = fs_magic(i);
        let offset_in_block = (offset % BLOCK_SIZE as u64) as usize;
        if let Some(block) = &blocks[i] {
            if magic_matches(block.as_slice(), offset_in_block, magic.as_slice()) {
                proof {
                    assert(offset_in_block == spec_fs_magics()[i as int].1 % (BLOCK_SIZE as u64));
                    assert(blocks@[i as int] == Some(*block));
                    assert(spec_magic_in_block(i as int, block@));
                    assert(spec_fs_magics().len() == FS_MAGIC_COUNT);
                    assert(spec_first_magic(blocks@, i as int) == fs);
                }
                return fs;
            }
        }
        i += 1;
    }
    FsFound::NotFound
}

/// The magic table: FAT16 and FAT32 at byte 0x36, NTFS at byte 3, ext2/3/4
/// at byte 0x438, XFS at byte 0 and Btrfs at byte 0x10040, searched in that
/// order.
pub proof fn lemma_fs_magic_table()
    ensures
        spec_fs_magics().len() == 6,
        spec_fs_magics()[0] == (FsFound::Fat16, 0x36u64, seq![70u8, 65u8, 84u8, 49u8, 54u8]),
        spec_fs_magics()[1] == (FsFound::Fat32, 0x36u64, seq![70u8, 65u8, 84u8, 51u8, 50u8]),
        spec_fs_magics()[2] == (FsFound::Ntfs, 0x03u64, seq![78u8, 84u8, 70u8, 83u8]),
        spec_fs_magics()[3] == (FsFound::Ext, 0x438u64, seq![0x53u8, 0xefu8]),
        spec_fs_magics()[4] == (FsFound::Xfs, 0x0u64, seq![88u8, 70u8, 83u8, 66u8]),
        spec_fs_magics()[5] == (
            FsFound::Btrfs,
            0x10040u64,
            seq![95u8, 66u8, 72u8, 82u8, 102u8, 115u8, 95u8, 77u8],
        ),
{
}

/// Where no Wasabi file system was found, the file system of the first entry
/// of the table whose block holds its magic bytes is the answer, whichever
/// entry that is.
pub proof fn lemma_first_magic_wins(wasabi: FsFound, blocks: Seq<Option<Vec<u8>>>, i: int)
    requires
        !(wasabi is WasabiFs),
        0 <= i < blocks.len(),
        i < spec_fs_magics().len(),
        blocks[i] matches Some(b) && ({
            let offset = spec_fs_magics()[i].1 % 4096;
            let magic = spec_fs_magics()[i].2;
            offset + magic.len() <= b@.len() && b@.subrange(offset as int, offset + magic.len()) == magic
        }),
        forall|j: int|
            #![trigger blocks[j]]
            0 <= j < i ==> !(blocks[j] matches Some(b) && ({
                let offset = spec_fs_magics()[j].1 % 4096;
                let magic = spec_fs_magics()[j].2;
                offset + magic.len() <= b@.len() && b@.subrange(offset as int, offset + magic.len())
                    == magic
            })),
    ensures
        spec_fs_in_blocks(wasabi, blocks) == spec_fs_magics()[i].0,
{
    lemma_first_magic_from(blocks, 0, i);
}

proof fn lemma_first_magic_from(blocks: Seq<Option<Vec<u8>>>, k: int, i: int)
    requires
        0 <= k <= i < blocks.len(),
        i < spec_fs_magics().len(),
        blocks[i] matches Some(b) && spec_magic_in_block(i, b@),
        forall|j: int|
            #![trigger blocks[j]]
            0 <= j < i ==> !(blocks[j] matches Some(b) && spec_magic_in_block(j, b@)),
    ensures
        spec_first_magic(blocks, k) == spec_fs_magics()[i].0,
    decreases i - k,
{
    if k < i {
        assert(!(blocks[k] matches Some(b) && spec_magic_in_block(k, b@)));
        lemma_first_magic_from(blocks, k + 1, i);
    }
}

/// Where no block holds the magic of its entry, no file system is found.
pub proof fn lemma_no_magic_not_found(wasabi: FsFound, blocks: Seq<Option<Vec<u8>>>)
    requires
        !(wasabi is WasabiFs),
        forall|j: int|
            #![trigger blocks[j]]
            0 <= j < blocks.len() ==> !(blocks[j] matches Some(b) && spec_magic_in_block(j, b@)),
    ensures
        spec_fs_in_blocks(wasabi, blocks) is NotFound,
{
    lemma_no_magic_from(blocks, 0);
}

proof fn lemma_no_magic_from(blocks: Seq<Option<Vec<u8>>>, k: int)
    requires
        0 <= k,
        forall|j: int|
            #![trigger blocks[j]]
            0 <= j < blocks.len() ==> !(blocks[j] matches Some(b) && spec_magic_in_block(j, b@)),
    ensures
        spec_first_magic(blocks, k) is NotFound,
    decreases spec_fs_magics().len() - k,
{
    if k < spec_fs_magics().len() && k < blocks.len() {
        assert(!(blocks[k] matches Some(b) && spec_magic_in_block(k, b@)));
        lemma_no_magic_from(blocks, k + 1);
    }
}

/// A device whose first block holds the ext2/3/4 magic `0x53 0xef` at byte
/// 0x438, and neither `F` at byte 0x36 nor `N` at byte 3 where FAT and NTFS
/// keep theirs, is found to hold ext2/3/4 where it holds no Wasabi file
/// system: the blocks read for the first four entries are all that block.
pub proof fn lemma_ext_device_found(wasabi: FsFound, blocks: Seq<Option<Vec<u8>>>, block: Vec<u8>)
    requires
        !(wasabi is WasabiFs),
        blocks.len() >= 4,
        forall|j: int| 0 <= j < 4 ==> #[trigger] blocks[j] == Some(block),
        block@.len() == 4096,
        block@[0x438] == 0x53u8,
        block@[0x439] == 0xefu8,
        block@[0x36] != 70u8,
        block@[3] != 78u8,
    ensures
        spec_fs_in_blocks(wasabi, blocks) == FsFound::Ext,
{
    lemma_fs_magic_table();
    assert(block@.subrange(0x438, 0x43a) =~= seq![0x53u8, 0xefu8]);
    assert(spec_magic_in_block(3, block@));
    assert forall|j: int| 0 <= j < 3 implies !(#[trigger] blocks[j] matches Some(b) && spec_magic_in_block(
        j,
        b@,
    )) by {
        assert(blocks[j] == Some(block));
        if j < 2 {
            assert(block@.subrange(0x36, 0x3b)[0] == block@[0x36]);
        } else {
            assert(block@.subrange(3, 7)[0] == block@[3]);
        }
    }
    lemma_first_magic_from(blocks, 0, 3);
}

/// Whether `blocks` are what is read for the entries of [spec_fs_magics] of
/// a device of `block_count` blocks: in table order, the block of each entry
/// where the device has it and `None` where it does not, up to the first
/// entry whose magic its block holds. Only where none holds its magic are
/// all entries read.
pub open spec fn spec_reads_until_match(blocks: Seq<Option<Vec<u8>>>, block_count: u64) -> bool {
    &&& blocks.len() <= spec_fs_magics().len()
    &&& forall|i: int|
        #![trigger blocks[i]]
        0 <= i < blocks.len() ==> (blocks[i] is Some <==> spec_magic_block(i, block_count) is Some)
    &&& forall|i: int|
        #![trigger blocks[i]]
        0 <= i < blocks.len() - 1 ==> !(blocks[i] matches Some(b) && spec_magic_in_block(i, b@))
    &&& blocks.len() < spec_fs_magics().len() ==> blocks.len() >= 1 && (blocks.last() matches Some(
        b,
    ) && spec_magic_in_block(blocks.len() - 1, b@))
}

/// Reads the blocks that hold the magics of [spec_fs_magics] from a device
/// of `block_count` blocks, in table order, until one holds its magic, see
/// [spec_reads_until_match].
pub fn read_magic_blocks<D: BlockDevice>(device: &D, block_count: u64) -> (r: Result<
    Vec<Option<Vec<u8>>>,
    D::BlockDeviceError,
>)
    ensures
        r matches Ok(blocks) ==> spec_reads_until_match(blocks@, block_count),
{
    let mut blocks: Vec<Option<Vec<u8>>> = Vec::new();
    let mut i: usize = 0;
    while i < FS_MAGIC_COUNT
        invariant
            i <= FS_MAGIC_COUNT,
            blocks@.len() == i,
            spec_fs_magics().len() == FS_MAGIC_COUNT,
            forall|j: int|
                #![trigger blocks@[j]]
                0 <= j < i ==> (blocks@[j] is Some <==> spec_magic_block(j, block_count) is Some),
            forall|j: int|
                #![trigger blocks@[j]]
                0 <= j < i ==> !(blocks@[j] matches Some(b) && spec_magic_in_block(j, b@)),
        decreases FS_MAGIC_COUNT - i,
    {
        let (_, offset, magic) = fs_magic(i);
        let offset_in_block = (offset % BLOCK_SIZE as u64) as usize;
        match magic_block(i, block_count) {
            Some(lba) => {
                let data = device.read_block(lba)?;
                let matched = magic_matches(data.as_slice(), offset_in_block, magic.as_slice());
                let ghost view = data@;
                blocks.push(Some(data));
                proof {
                    assert(blocks@[i as int] == Some(blocks@[i as int]->0));
                    assert(blocks@[i as int]->0@ == view);
                    assert(offset_in_block == spec_fs_magics()[i as int].1 % (BLOCK_SIZE as u64));
                }
                if matched {
                    proof {
                        assert(spec_magic_in_block(i as int, view));
                        assert(blocks@.last() == blocks@[i as int]);
                    }
                    return Ok(blocks);
                }
            },
            None => {
                blocks.push(None);
            },
        }
        i += 1;
    }
    Ok(blocks)
}

/// Tries to check if there is an existing fs on the device
///
/// This is not 100% guranteed to detect existing filesystems and can only check
/// for some of them: first for a Wasabi file system, then for the file systems
/// of [spec_fs_magics], in that order. The blocks are read one after the
/// other until one shows a file system, see [read_magic_blocks]; the answer
/// is what [fs_in_blocks] makes of them.
pub fn check_for_filesystem<D: BlockDevice>(device: &D) -> (r: Result<
    FsFound,
    D::BlockDeviceError,
>)
    ensures
        r matches Ok(found) ==> (found is NotFound || found is WasabiFs || exists|i: int|
            0 <= i < spec_fs_magics().len() && spec_fs_magics()[i].0 == found),
        r matches Ok(found) ==> exists|
            wasabi: FsFound,
            block_count: u64,
            blocks: Seq<Option<Vec<u8>>>,
        |
            #![trigger spec_fs_in_blocks(wasabi, blocks), spec_reads_until_match(blocks, block_count)]
            found == spec_fs_in_blocks(wasabi, blocks) && (wasabi is NotFound || wasabi is WasabiFs)
                && blocks.len() <= spec_fs_magics().len() && (!(wasabi is WasabiFs)
                ==> spec_reads_until_match(blocks, block_count)),
{
    let wasabi = check_for_wasabifs(device)?;
    if let FsFound::WasabiFs { .. } = wasabi {
        let none: Vec<Option<Vec<u8>>> = Vec::new();
        let found = fs_in_blocks(wasabi, &none);
        proof {
            let ghost until = spec_reads_until_match(none@, 0u64);
            assert(found == spec_fs_in_blocks(wasabi, none@));
            assert(wasabi is WasabiFs);
        }
        return Ok(found);
    }
    let max = device.max_block_count()?;
    let blocks = read_magic_blocks(device, max)?;
    let found = fs_in_blocks(wasabi, &blocks);
    proof {
        lemma_first_magic_found(blocks@, 0);
        assert(found == spec_fs_in_blocks(wasabi, blocks@) && (wasabi is NotFound || wasabi is WasabiFs)
            && (!(wasabi is WasabiFs) ==> spec_reads_until_match(blocks@, max)));
    }
    Ok(found)
}

} // verus!
