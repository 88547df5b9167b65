use wasabi::wfs::file_write::{kept_parts, plan_file_write, write_layout, FileWrite, WriteLayout};
use wasabi::wfs::strings::{prepare_string, StringHead, StringReader, BLOCK_STRING_DATA_LENGTH};
use wasabi::wfs::block::Block;
use wasabi::wfs::block_allocator::{
    check_stored_list, BlockAllocator, BlockGroupList, FreeBlockGroups, FsError,
};
use wasabi::wfs::existing_fs_check::{
    check_for_filesystem, fs_in_blocks, magic_block, magic_matches, wasabifs_in_block,
    wasabifs_on_device, FsFound,
};
use wasabi::wfs::fs_structs::{
    BlockListHead, DevicePointer, FileId, FsStatus, MainTransientHeader, Perm, Timestamp,
};
use wasabi::wfs::interface::{
    plan_block_writes, write_blocks, BlockDevice, TestBlockDevice, TestBlockDeviceError, WriteData,
};
use wasabi::wfs::mem_structs::{BlockList, BlockListAccess, BlockListPartialIter, Directory};
use wasabi::wfs::mount::{
    check_header, check_override, close_transient, fs_version, geometry_for_device,
    geometry_from_header, mount_transient, AccessMode, OverrideCheck,
};
use wasabi::wfs::mem_tree::{
    choose_rebalance, merge_children, merge_into_left, replace_merged, take_child_from_left,
    take_child_from_right, take_from_left, take_from_right, RebalanceVariant,
};
use wasabi::wfs::{BlockGroup, BLOCK_SIZE, LBA};

fn lba(n: u64) -> LBA {
    LBA::new(n).unwrap()
}

/// A device held in memory.
struct MemDevice {
    blocks: Vec<Vec<u8>>,
}

#[derive(Debug)]
struct MemDeviceError;

impl BlockDevice for MemDevice {
    type BlockDeviceError = MemDeviceError;

    fn max_block_count(&self) -> Result<u64, MemDeviceError> {
        Ok(self.blocks.len() as u64)
    }

    fn read_block(&self, lba: LBA) -> Result<Vec<u8>, MemDeviceError> {
        self.blocks.get(lba.get() as usize).cloned().ok_or(MemDeviceError)
    }

    fn read_blocks_contig(&self, start: LBA, block_count: u64) -> Result<Vec<u8>, MemDeviceError> {
        let mut data = Vec::new();
        for i in 0..block_count {
            data.extend(self.read_block(lba(start.get() + i))?);
        }
        Ok(data)
    }

    fn write_block(&mut self, lba: LBA, data: &[u8]) -> Result<(), MemDeviceError> {
        let block = self.blocks.get_mut(lba.get() as usize).ok_or(MemDeviceError)?;
        block.copy_from_slice(data);
        Ok(())
    }

    fn write_blocks_contig(&mut self, start: LBA, data: &[u8]) -> Result<(), MemDeviceError> {
        for (i, chunk) in data.chunks(BLOCK_SIZE).enumerate() {
            self.write_block(lba(start.get() + i as u64), chunk)?;
        }
        Ok(())
    }

    fn read_block_atomic(&self, lba: LBA) -> Result<Vec<u8>, MemDeviceError> {
        self.read_block(lba)
    }

    fn write_block_atomic(&mut self, lba: LBA, data: &[u8]) -> Result<(), MemDeviceError> {
        self.write_block(lba, data)
    }

    fn compare_exchange_block(
        &mut self,
        lba: LBA,
        current: &[u8],
        new: &[u8],
    ) -> Result<Result<(), Vec<u8>>, MemDeviceError> {
        let block = self.blocks.get_mut(lba.get() as usize).ok_or(MemDeviceError)?;
        if block.as_slice() == current {
            block.copy_from_slice(new);
            Ok(Ok(()))
        } else {
            Ok(Err(block.clone()))
        }
    }
}

#[test]
fn test_block_from_start_and_end() {
    let start = LBA::new(1).unwrap();
    let end = LBA::new(10).unwrap();

    let group = BlockGroup::new(start, end);
    assert_eq!(start, group.start);
    assert_eq!(end, group.end());
    assert_eq!(10, group.count());
}

#[test]
fn lba_arithmetic() {
    assert_eq!(LBA::new(u64::MAX), None);
    assert_eq!(LBA::from_byte_offset(8192 + 17).unwrap().get(), 2);
    assert_eq!(lba(3).to_byte_offset(), 3 * 4096);
    let group = BlockGroup::with_count(lba(4), 6);
    assert_eq!(group.bytes(), 6 * 4096);
    assert!(group.contains(lba(9)));
    assert!(!group.contains(lba(10)));
    assert_eq!(group.subgroup(2).start, lba(6));
    assert_eq!(group.remove_end(2).count(), 4);
    assert_eq!(group.shorten(1).end(), lba(4));
}

#[test]
fn allocator_allocates_and_frees() {
    let mut alloc = BlockAllocator::empty(&[lba(0), lba(1)], lba(100));
    assert!(alloc.is_dirty());
    let list = alloc.allocate(5).unwrap();
    assert_eq!(list.block_count(), 5);
    assert_eq!(alloc.check_consistent(), Ok(()));
    let block = alloc.allocate_block().unwrap();
    assert!(block.get() >= 2);
    alloc.free_block(block);
    alloc.free(list);
    assert_eq!(alloc.mark_used(lba(0)), Err(()));
    assert_eq!(alloc.mark_used(lba(50)), Ok(()));
    assert_eq!(alloc.allocate(1000).err(), Some(FsError::BlockDeviceFull(1000)));
}

#[test]
fn allocator_stores_and_loads_its_free_list() {
    let mut alloc = BlockAllocator::empty(&[lba(0), lba(1), lba(5)], lba(100));
    let plan = alloc.prepare_write().unwrap();
    assert!(!alloc.is_dirty());
    assert_eq!(plan.len(), 1);
    let (first, block) = &plan[0];
    assert_eq!(block.next, None);
    let loaded = BlockAllocator::load(*first, plan.iter().map(|(_, b)| b.clone()).collect());
    assert!(!loaded.is_dirty());
    let device = MemDevice { blocks: vec![] };
    assert_eq!(loaded.check_matches_device(&device), Ok(()));
    assert_eq!(BlockAllocator::empty(&[lba(0)], lba(10)).check_matches_device(&device), Err(()));
    let mut again = loaded.clone();
    let written = block.free.clone();
    assert_eq!(written.iter().map(|g| g.count()).sum::<u64>(), 100 - 3 - 1);
    // the block that stores the list is not free any more
    for group in &written {
        assert!(!group.contains(*first));
    }
    // storing again frees the old block first
    let plan = again.prepare_write().unwrap();
    assert_eq!(plan.len(), 1);
}

#[test]
fn allocator_without_any_block_cannot_be_stored() {
    let mut full = BlockAllocator::empty(&[lba(0)], lba(1));
    assert_eq!(full.prepare_write().err(), Some(FsError::BlockDeviceFull(1)));
    assert!(full.is_dirty());
    // a single free block is enough to hold the list, and once stored the
    // list can be stored again in the block that it occupies
    let mut one = BlockAllocator::empty(&[lba(0)], lba(2));
    let plan = one.prepare_write().unwrap();
    assert_eq!(plan.len(), 1);
    assert_eq!(plan[0].0, lba(1));
    assert!(plan[0].1.free.is_empty());
    let plan = one.prepare_write().unwrap();
    assert_eq!(plan[0].0, lba(1));
}

/// The number of free blocks of `alloc`: the largest count it can allocate.
fn free_count(alloc: &BlockAllocator) -> u64 {
    let mut n = 0;
    while alloc.clone().allocate(n + 1).is_ok() {
        n += 1;
    }
    n
}

#[test]
fn allocation_prefers_power_of_two_groups() {
    let g = |start: u64, count: u64| BlockGroup::with_count(lba(start), count);
    let mut alloc = BlockAllocator::empty(&[], lba(10));
    let list = alloc.allocate(7).unwrap();
    assert_eq!(list.groups, vec![g(0, 4), g(4, 2), g(6, 1)]);
    // block 3 is used: free are 0..3 and 4..12
    let mut alloc = BlockAllocator::empty(&[lba(3)], lba(12));
    let list = alloc.clone().allocate(4).unwrap();
    assert_eq!(list.groups, vec![g(4, 4)]);
    // a group of 2 comes from the smallest group that holds 2, then the
    // last block from the smallest group left
    let list = alloc.allocate(3).unwrap();
    assert_eq!(list.groups, vec![g(0, 2), g(2, 1)]);
}

#[test]
fn storing_the_allocator_again_keeps_the_free_count() {
    let mut alloc = BlockAllocator::empty(&[lba(0)], lba(10));
    assert_eq!(free_count(&alloc), 9);
    let plan = alloc.prepare_write().unwrap();
    // nothing stored before, one block taken
    assert_eq!(plan.len(), 1);
    assert_eq!(free_count(&alloc), 9 + 0 - 1);
    let plan = alloc.prepare_write().unwrap();
    // one block freed, one block taken
    assert_eq!(plan.len(), 1);
    assert_eq!(free_count(&alloc), 8 + 1 - 1);
    assert!(alloc.check_stored_apart());
}

#[test]
fn stored_free_lists_are_checked_before_loading() {
    let block = |free: Vec<BlockGroup>, next: Option<LBA>| FreeBlockGroups { free, next };
    let good = vec![
        block(vec![BlockGroup::with_count(lba(3), 2)], Some(lba(1))),
        block(vec![BlockGroup::with_count(lba(10), 5)], None),
    ];
    assert!(check_stored_list(&good));
    let loaded = BlockAllocator::load(lba(0), good);
    assert!(loaded.check_stored_apart());
    // the list does not end
    assert!(!check_stored_list(&vec![block(vec![], Some(lba(1)))]));
    // the list ends too early
    assert!(!check_stored_list(&vec![block(vec![], None), block(vec![], None)]));
    assert!(!check_stored_list(&vec![]));
    // groups out of order, or without a gap between them
    let unsorted = vec![block(
        vec![BlockGroup::with_count(lba(10), 2), BlockGroup::with_count(lba(3), 2)],
        None,
    )];
    assert!(!check_stored_list(&unsorted));
    let touching = vec![
        block(vec![BlockGroup::with_count(lba(3), 2)], Some(lba(1))),
        block(vec![BlockGroup::with_count(lba(5), 1)], None),
    ];
    assert!(!check_stored_list(&touching));
    // a block that stores the list is also free
    let overlapping = vec![block(vec![BlockGroup::with_count(lba(3), 4)], None)];
    assert!(check_stored_list(&overlapping));
    assert!(!BlockAllocator::load(lba(4), overlapping).check_stored_apart());
}

#[test]
fn allocator_spreads_a_long_free_list_over_blocks() {
    let used: Vec<LBA> = (0..600).map(|i| lba(i * 2)).collect();
    let mut alloc = BlockAllocator::empty(&used, lba(1300));
    let plan = alloc.prepare_write().unwrap();
    assert!(plan.len() >= 2);
    for (k, (_, block)) in plan.iter().enumerate() {
        assert!(block.free.len() <= 250);
        if k + 1 < plan.len() {
            assert_eq!(block.next, Some(plan[k + 1].0));
        } else {
            assert_eq!(block.next, None);
        }
    }
    let loaded = BlockAllocator::load(plan[0].0, plan.iter().map(|(_, b)| b.clone()).collect());
    assert_eq!(loaded.check_consistent(), Ok(()));
}

#[test]
fn block_group_list_blocks_in_order() {
    let list = BlockGroupList {
        groups: vec![BlockGroup::with_count(lba(3), 2), BlockGroup::with_count(lba(10), 1)],
    };
    let mut iter = list.block_iter();
    let mut blocks = Vec::new();
    while let Some(b) = iter.next() {
        blocks.push(b.get());
    }
    assert_eq!(blocks, vec![3, 4, 10]);
    assert_eq!(list.block_count(), 3);
}

#[test]
fn finds_existing_file_systems() {
    let mut header = vec![0u8; BLOCK_SIZE];
    header[..8].copy_from_slice(b"WasabiFs");
    header[8..12].copy_from_slice(&[0, 1, 0, 3]);
    assert_eq!(wasabifs_in_block(&header), FsFound::WasabiFs { version: [0, 1, 0, 3] });
    let device = MemDevice { blocks: vec![header, vec![0; BLOCK_SIZE]] };
    assert_eq!(
        check_for_filesystem(&device).unwrap(),
        FsFound::WasabiFs { version: [0, 1, 0, 3] }
    );
    let mut fat = vec![0u8; BLOCK_SIZE];
    fat[0x36..0x36 + 5].copy_from_slice(b"FAT32");
    let device = MemDevice { blocks: vec![fat] };
    assert_eq!(check_for_filesystem(&device).unwrap(), FsFound::Fat32);
    let device = MemDevice { blocks: vec![vec![0; BLOCK_SIZE]] };
    assert_eq!(check_for_filesystem(&device).unwrap(), FsFound::NotFound);
    assert!(magic_matches(b"xxFAT", 2, b"FAT"));
    assert!(!magic_matches(b"xxFA", 2, b"FAT"));
}

#[test]
fn small_devices_show_fewer_file_systems() {
    let mut header = vec![0u8; BLOCK_SIZE];
    header[..8].copy_from_slice(b"WasabiFs");
    header[8..12].copy_from_slice(&[1, 0, 0, 0]);
    assert_eq!(wasabifs_on_device(0, &header), FsFound::NotFound);
    assert_eq!(wasabifs_on_device(1, &header), FsFound::WasabiFs { version: [1, 0, 0, 0] });
    assert_eq!(wasabifs_on_device(3, &[]), FsFound::NotFound);
    // Btrfs keeps its magic in block 16
    assert_eq!(magic_block(5, 16), None);
    assert_eq!(magic_block(5, 17), Some(lba(16)));
    // the other magics are in block 0
    assert_eq!(magic_block(3, 1), Some(lba(0)));
    assert_eq!(magic_block(0, 0), None);
    let device = MemDevice { blocks: vec![] };
    assert_eq!(check_for_filesystem(&device).unwrap(), FsFound::NotFound);
}

#[test]
fn file_system_of_read_blocks() {
    let mut first = vec![0u8; BLOCK_SIZE];
    first[0x03..0x03 + 4].copy_from_slice(b"NTFS");
    first[0x36..0x36 + 5].copy_from_slice(b"FAT32");
    let blocks = vec![Some(first.clone()), Some(first.clone()), Some(first.clone())];
    // the table is searched in order: FAT32 comes before NTFS
    assert_eq!(fs_in_blocks(FsFound::NotFound, &blocks), FsFound::Fat32);
    // a Wasabi file system wins over every magic
    assert_eq!(
        fs_in_blocks(FsFound::WasabiFs { version: [1, 2, 3, 4] }, &blocks),
        FsFound::WasabiFs { version: [1, 2, 3, 4] }
    );
    let mut btrfs = vec![0u8; BLOCK_SIZE];
    btrfs[0x40..0x40 + 8].copy_from_slice(b"_BHRfs_M");
    let blocks = vec![None, None, None, None, None, Some(btrfs)];
    assert_eq!(fs_in_blocks(FsFound::NotFound, &blocks), FsFound::Btrfs);
    assert_eq!(fs_in_blocks(FsFound::NotFound, &vec![]), FsFound::NotFound);
    // a block too short for the magic shows nothing
    let blocks = vec![Some(vec![0u8; 0x38])];
    assert_eq!(fs_in_blocks(FsFound::NotFound, &blocks), FsFound::NotFound);
}

#[test]
fn block_writes_follow_the_groups() {
    let start = vec![1u8; 96];
    let data = vec![2u8; 2 * BLOCK_SIZE];
    let end = vec![3u8; BLOCK_SIZE - 96];
    let write = WriteData { data: &data, old_block_start: &start, old_block_end: &end };
    let groups = vec![BlockGroup::with_count(lba(10), 2), BlockGroup::with_count(lba(3), 1)];
    let plan = plan_block_writes(&groups, &write);
    let lbas: Vec<u64> = plan.iter().map(|(l, _)| l.get()).collect();
    assert_eq!(lbas, vec![10, 11, 3]);
    let mut all = start.clone();
    all.extend_from_slice(&data);
    all.extend_from_slice(&end);
    for (k, (_, bytes)) in plan.iter().enumerate() {
        assert_eq!(bytes.as_slice(), &all[k * BLOCK_SIZE..(k + 1) * BLOCK_SIZE]);
    }
    assert_eq!(plan[0].1[..96], [1u8; 96]);
    assert_eq!(plan[0].1[96], 2);
    assert_eq!(plan[2].1[95], 2);
    assert_eq!(plan[2].1[96], 3);
    assert!(plan_block_writes(&vec![], &WriteData { data: &[], old_block_start: &[], old_block_end: &[] })
        .is_empty());
}

#[test]
fn device_writes_and_reads_block_lists() {
    let mut device = MemDevice { blocks: vec![vec![0u8; BLOCK_SIZE]; 6] };
    let start = vec![1u8; 10];
    let data = vec![2u8; 2 * BLOCK_SIZE];
    let end = vec![3u8; BLOCK_SIZE - 10];
    let write = WriteData { data: &data, old_block_start: &start, old_block_end: &end };
    let groups = vec![BlockGroup::with_count(lba(4), 2), BlockGroup::with_count(lba(1), 1)];
    write_blocks(&mut device, &groups, &write).unwrap();
    let read = device.read_blocks(&groups).map_err(|_| ()).unwrap();
    let mut all = start.clone();
    all.extend_from_slice(&data);
    all.extend_from_slice(&end);
    assert_eq!(read, all);
    assert_eq!(device.blocks[0], vec![0u8; BLOCK_SIZE]);
    assert_eq!(device.blocks[4][..10], [1u8; 10]);
    // a group past the end of the device fails
    assert!(device.read_blocks(&vec![BlockGroup::with_count(lba(9), 1)]).is_err());
    let zero = vec![0u8; BLOCK_SIZE];
    let ones = vec![1u8; BLOCK_SIZE];
    assert_eq!(device.compare_exchange_block(lba(0), &zero, &ones).unwrap(), Ok(()));
    assert_eq!(device.compare_exchange_block(lba(0), &zero, &zero).unwrap(), Err(ones.clone()));
    assert_eq!(device.read_block_atomic(lba(0)).unwrap(), ones);
}

#[test]
fn write_data_validity() {
    let data = vec![0u8; 4000];
    let start = vec![0u8; 96];
    let write = WriteData { data: &data, old_block_start: &start, old_block_end: &[] };
    assert_eq!(write.total_len(), 4096);
    assert!(write.is_valid());
    let write = WriteData { data: &data, old_block_start: &[], old_block_end: &[] };
    assert!(!write.is_valid());
}

#[test]
fn file_ids_and_structures() {
    assert_eq!(FileId::try_new(0), None);
    let id = FileId::new(5);
    assert_eq!(id.get(), 5);
    assert_eq!(id.next().get(), 6);
    assert_eq!(FileId::root().get(), 1);
    assert_eq!(FileId::max().get(), u64::MAX);
    assert_eq!(Timestamp::zero().get(), 0);
    let perm = Perm::read().union(Perm::write());
    assert!(perm.contains(Perm::write()));
    assert!(!perm.contains(Perm::execute()));
    assert!(Perm::empty().is_empty());
    assert_eq!(Perm::all().bits, 7);
    let header = MainTransientHeader::default();
    assert_eq!(&header.magic, b"WaTh");
    assert_eq!(header.status, FsStatus::Uninitialized);
    let head: BlockListHead = lba(7).into();
    match head {
        BlockListHead::Single(group) => assert_eq!(group, BlockGroup::with_count(lba(7), 1)),
        BlockListHead::List(_) => panic!("a single block is a single group"),
    }
    let pointer: DevicePointer<u8> = DevicePointer::new(lba(3));
    assert_eq!(pointer.clone().lba, lba(3));
    assert_eq!(Block::new(17u32).into_inner(), 17);
    let names = vec!["a".to_string(), "bc".to_string()];
    assert_eq!(Block::new(names.clone()).into_inner(), names);
}

#[test]
fn creation_and_mount_decisions() {
    assert_eq!(check_override(FsFound::Fat16, OverrideCheck::Check), Err(FsError::OverrideCheck));
    assert_eq!(check_override(FsFound::Fat16, OverrideCheck::IgnoreExisting), Ok(()));
    assert_eq!(check_override(FsFound::NotFound, OverrideCheck::Check), Ok(()));
    assert_eq!(geometry_for_device(8).err(), Some(FsError::BlockDeviceToSmall(8, 9)));
    let geometry = geometry_for_device(100).unwrap();
    assert_eq!(geometry.max_usable_lba.get(), 98);
    assert_eq!(geometry.backup_header_lba.get(), 99);
    assert_eq!(
        geometry_from_header(lba(99), 50).err(),
        Some(FsError::BlockDeviceToSmall(50, 100))
    );
    assert_eq!(geometry_from_header(lba(99), 100).unwrap().max_block_count, 100);
    assert_eq!(fs_version(), [0, 1, 0, 3]);
}

#[test]
fn header_checks() {
    let ready = MainTransientHeader {
        magic: *b"WaTh",
        mount_count: 0,
        open_in_write_mode: false,
        status: FsStatus::Ready,
    };
    assert_eq!(check_header(b"WasabiFs", [0, 1, 0, 3], Some(ready)), Ok(ready));
    assert_eq!(
        check_header(b"WasabiFx", [0, 1, 0, 3], Some(ready)),
        Err(FsError::HeaderMagicInvalid)
    );
    assert_eq!(
        check_header(b"WasabiFs", [0, 1, 0, 2], Some(ready)),
        Err(FsError::HeaderVersionMismatch([0, 1, 0, 2]))
    );
    assert_eq!(check_header(b"WasabiFs", [0, 1, 0, 3], None), Err(FsError::HeaderWithoutTransient));
    let uninit = MainTransientHeader { status: FsStatus::Uninitialized, ..ready };
    assert_eq!(check_header(b"WasabiFs", [0, 1, 0, 3], Some(uninit)), Err(FsError::NotInitialized));
}

#[test]
fn mounting_counts_and_excludes_writers() {
    let free = MainTransientHeader {
        magic: *b"WaTh",
        mount_count: 0,
        open_in_write_mode: false,
        status: FsStatus::Ready,
    };
    let writer = mount_transient(free, AccessMode::ReadWrite, false).unwrap();
    assert_eq!(writer.mount_count, 1);
    assert!(writer.open_in_write_mode);
    assert_eq!(mount_transient(writer, AccessMode::ReadOnly, false), Err(FsError::AlreadyMounted));
    assert_eq!(mount_transient(writer, AccessMode::ReadWrite, false), Err(FsError::AlreadyMounted));
    assert_eq!(close_transient(writer, AccessMode::ReadWrite), free);
    let reader = mount_transient(free, AccessMode::ReadOnly, false).unwrap();
    let second = mount_transient(reader, AccessMode::ReadOnly, false).unwrap();
    assert_eq!(second.mount_count, 2);
    assert_eq!(mount_transient(second, AccessMode::ReadWrite, false), Err(FsError::AlreadyMounted));
    assert_eq!(close_transient(second, AccessMode::ReadOnly), reader);
    let forced = mount_transient(writer, AccessMode::ReadOnly, true).unwrap();
    assert_eq!(forced.mount_count, 1);
    assert!(!forced.open_in_write_mode);
}

#[test]
fn partial_walk_over_block_list() {
    let list = BlockList::from_groups(vec![
        BlockGroup::with_count(lba(10), 2),
        BlockGroup::with_count(lba(20), 3),
    ]);
    assert_eq!(list.block_count(), 5);
    // bytes 5000 .. 5000 + 8000 of the list
    let mut walk = list.iter_partial(5000, 8000);
    let first = walk.next().unwrap();
    assert_eq!(first.group, BlockGroup::with_count(lba(11), 1));
    assert_eq!(first.offset, 5000 - 4096);
    assert_eq!(first.len, 4096 - (5000 - 4096));
    let second = walk.next().unwrap();
    assert_eq!(second.group.start, lba(20));
    assert_eq!(second.offset, 0);
    assert_eq!(second.len, 8000 - first.len);
    assert_eq!(second.group.count(), 2);
    assert_eq!(walk.next(), None);
}

#[test]
fn partial_walk_past_the_end() {
    let mut walk = BlockListPartialIter::new(vec![BlockGroup::with_count(lba(1), 1)], 4096, 10);
    assert_eq!(walk.next(), None);
    let mut walk = BlockListPartialIter::new(vec![BlockGroup::with_count(lba(1), 1)], 0, 0);
    assert_eq!(walk.next(), None);
    let mut walk = BlockListPartialIter::new(vec![BlockGroup::with_count(lba(1), 1)], 100, 10_000);
    let part = walk.next().unwrap();
    assert_eq!(part.offset, 100);
    assert_eq!(part.len, 4096 - 100);
    assert_eq!(walk.next(), None);
}

#[test]
fn block_list_access_and_directories() {
    let list = BlockList::from_lba(lba(4));
    assert_eq!(list.single(), BlockGroup::with_count(lba(4), 1));
    let access = BlockListAccess::InMem(list);
    assert_eq!(access.get_list().as_slice(), &[BlockGroup::with_count(lba(4), 1)]);
    let mut list = BlockList::from_group(BlockGroup::with_count(lba(1), 1));
    list.push(BlockGroupList { groups: vec![BlockGroup::with_count(lba(5), 2)] });
    assert_eq!(list.as_slice().len(), 2);
    let root = Directory::create_root();
    assert!(root.parent_id.is_none());
    let dir = Directory::empty(FileId::root());
    assert_eq!(dir.parent_id, Some(FileId::root()));
}

#[test]
fn strings_are_read_back_as_written() {
    let mut alloc = BlockAllocator::empty(&[lba(0)], lba(100));
    let long = "ab".repeat(5000);
    let blocks = prepare_string(&mut alloc, &long).unwrap();
    assert_eq!(blocks.head.length, 10000);
    assert_eq!(blocks.parts.len(), 2);
    assert_eq!(blocks.head.next, Some(blocks.parts[0].0));
    assert_eq!(blocks.parts[1].1.next, None);
    assert!(!alloc.check_consistent().is_err());
    let mut reader = StringReader::new(&blocks.head);
    let mut read = 0;
    while let Some(at) = reader.next_block().unwrap() {
        let (lba, part) = &blocks.parts[read];
        assert_eq!(*lba, at);
        reader.take_part(part);
        read += 1;
    }
    assert_eq!(read, 2);
    assert_eq!(reader.finish().unwrap(), long);

    let blocks = prepare_string(&mut alloc, "name").unwrap();
    assert!(blocks.parts.is_empty());
    assert_eq!(blocks.head.next, None);
    assert_eq!(blocks.head.data.len(), BLOCK_STRING_DATA_LENGTH);
    let reader = StringReader::new(&blocks.head);
    assert_eq!(reader.next_block(), Ok(None));
    assert_eq!(reader.finish(), Ok("name".to_string()));
}

#[test]
fn string_errors() {
    let mut small = BlockAllocator::empty(&[lba(0)], lba(2));
    assert_eq!(
        prepare_string(&mut small, &"x".repeat(5000)).err(),
        Some(FsError::BlockDeviceFull(2))
    );
    let cut = StringHead { length: 5000, data: vec![b'x'; BLOCK_STRING_DATA_LENGTH], next: None };
    assert_eq!(StringReader::new(&cut).next_block(), Err(FsError::MalformedStringLength));
    let mut data = vec![0u8; BLOCK_STRING_DATA_LENGTH];
    data[0] = 0xff;
    let broken = StringHead { length: 1, data, next: None };
    assert_eq!(StringReader::new(&broken).finish(), Err(FsError::MalformedStringUtf8));
}

#[test]
fn file_write_decisions() {
    // growing a file of 100 bytes in one block by writing 5000 bytes at 10
    assert_eq!(
        plan_file_write(100, 1, 10, 5000),
        FileWrite { blocks_to_alloc: 1, new_size: 5010, keep_last_block_data: false }
    );
    // overwriting inside a file keeps what follows the write
    assert_eq!(
        plan_file_write(9000, 3, 0, 10),
        FileWrite { blocks_to_alloc: 0, new_size: 9000, keep_last_block_data: true }
    );
    // a write that ends at the end of the file
    assert_eq!(
        plan_file_write(20, 1, 10, 10),
        FileWrite { blocks_to_alloc: 0, new_size: 20, keep_last_block_data: false }
    );
}

#[test]
fn write_layouts_fill_whole_blocks() {
    let layout = write_layout(4096 * 3 + 100, 5000);
    assert_eq!(layout, WriteLayout { offset_in_first_block: 100, last_block_end: 1004, block_count: 2 });
    let first = vec![1u8; BLOCK_SIZE];
    let last = vec![2u8; BLOCK_SIZE];
    let data = vec![9u8; 5000];
    let (start, end) = kept_parts(layout, true, &first, &last);
    assert_eq!(start, vec![1u8; 100]);
    assert_eq!(end, vec![2u8; BLOCK_SIZE - 1004]);
    let write = WriteData { data: &data, old_block_start: &start, old_block_end: &end };
    assert!(write.is_valid());
    assert_eq!(write.total_len(), 2 * BLOCK_SIZE);
    let (_, zeroed) = kept_parts(layout, false, &first, &last);
    assert_eq!(zeroed, vec![0u8; BLOCK_SIZE - 1004]);
    let aligned = write_layout(BLOCK_SIZE as u64, BLOCK_SIZE as u64);
    assert_eq!(aligned, WriteLayout { offset_in_first_block: 0, last_block_end: 0, block_count: 1 });
    let (start, end) = kept_parts(aligned, true, &[], &[]);
    assert!(start.is_empty() && end.is_empty());
}

#[test]
fn allocation_succeeds_exactly_when_enough_blocks_are_free() {
    let mut alloc = BlockAllocator::empty(&[lba(3)], lba(10));
    assert_eq!(alloc.allocate_group(7).err(), Some(FsError::NoConsecutiveFreeBlocks(7)));
    assert_eq!(alloc.allocate(10).err(), Some(FsError::BlockDeviceFull(10)));
    let list = alloc.allocate(9).unwrap();
    assert_eq!(list.block_count(), 9);
    assert_eq!(alloc.allocate_block().err(), Some(FsError::NoConsecutiveFreeBlocks(1)));
}

#[test]
fn test_block_device_refuses_every_access() {
    let mut device = TestBlockDevice;
    let block = vec![0u8; BLOCK_SIZE];
    assert_eq!(device.max_block_count(), Ok(0));
    assert_eq!(device.read_block(lba(0)), Err(TestBlockDeviceError));
    assert_eq!(device.read_blocks_contig(lba(0), 1), Err(TestBlockDeviceError));
    assert_eq!(device.write_block(lba(0), &block), Err(TestBlockDeviceError));
    assert_eq!(device.write_blocks_contig(lba(0), &block), Err(TestBlockDeviceError));
    assert_eq!(device.read_block_atomic(lba(0)), Err(TestBlockDeviceError));
    assert_eq!(device.write_block_atomic(lba(0), &block), Err(TestBlockDeviceError));
    assert_eq!(device.compare_exchange_block(lba(0), &block, &block), Err(TestBlockDeviceError));
}

#[test]
fn rebalance_choices_follow_the_order_of_tries() {
    let all = |n: usize| vec![true; n];
    assert_eq!(choose_rebalance(&vec![1, 5], &all(2), 6, 0), Some((RebalanceVariant::TakeFromRight, false)));
    assert_eq!(
        choose_rebalance(&vec![1, 3], &all(2), 6, 0),
        Some((RebalanceVariant::Merge { merge_left_index: 0 }, false))
    );
    assert_eq!(
        choose_rebalance(&vec![4, 2, 5], &vec![true, true, false], 6, 1),
        Some((RebalanceVariant::TakeFromLeft, false))
    );
    // siblings that are not in memory are only used once loading is allowed
    assert_eq!(
        choose_rebalance(&vec![3, 2, 5], &vec![false, true, false], 6, 1),
        Some((RebalanceVariant::Merge { merge_left_index: 0 }, true))
    );
    assert_eq!(
        choose_rebalance(&vec![2, 1, 5], &vec![false, true, true], 6, 2),
        Some((RebalanceVariant::Merge { merge_left_index: 1 }, false))
    );
    assert_eq!(choose_rebalance(&vec![4, 3], &all(2), 6, 0), None);
}

#[test]
fn rebalancing_moves_entries_in_order() {
    let mut left = vec![1u64, 2];
    let mut right = vec![5u64, 6, 7];
    take_from_right(&mut left, &mut right);
    assert_eq!((left.clone(), right.clone()), (vec![1, 2, 5], vec![6, 7]));
    take_from_left(&mut left, &mut right);
    assert_eq!((left.clone(), right.clone()), (vec![1, 2], vec![5, 6, 7]));
    merge_into_left(&mut left, &mut right);
    assert_eq!((left, right), (vec![1, 2, 5, 6, 7], vec![]));

    // children with the largest id each holds; the last is bounded by the
    // node's own bound in its parent
    let mut left = vec![("a", Some(10u64)), ("b", None)];
    let mut left_max = Some(20u64);
    let mut right = vec![("c", Some(30u64)), ("d", Some(40)), ("e", None)];
    take_child_from_right(&mut left, &mut left_max, &mut right);
    assert_eq!(left, vec![("a", Some(10)), ("b", Some(20)), ("c", None)]);
    assert_eq!(left_max, Some(30));
    assert_eq!(right, vec![("d", Some(40)), ("e", None)]);
    take_child_from_left(&mut left, &mut left_max, &mut right);
    assert_eq!(left, vec![("a", Some(10)), ("b", None)]);
    assert_eq!(left_max, Some(20));
    assert_eq!(right, vec![("c", Some(30)), ("d", Some(40)), ("e", None)]);
    merge_children(&mut left, left_max, &mut right);
    assert_eq!(
        left,
        vec![("a", Some(10)), ("b", Some(20)), ("c", Some(30)), ("d", Some(40)), ("e", None)]
    );
    assert!(right.is_empty());
    let mut parent = vec![("l", Some(20u64)), ("r", Some(50)), ("z", None)];
    replace_merged(&mut parent, 0, "m");
    assert_eq!(parent, vec![("m", Some(50)), ("z", None)]);
}
