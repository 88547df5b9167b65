//! The decisions of a write into a file: how the file grows, which blocks
//! the written bytes fall on, and which bytes of the first and last block
//! are kept.
//!
//! The caller reads the first and last block where they are kept, and writes
//! the blocks with the [WriteData] made of the parts returned here.

use vstd::prelude::*;

use super::interface::WriteData;
use super::lba::{blocks_required_for, spec_blocks_required_for, BLOCK_SIZE};

verus! {

/// How a write into a file changes the file.
#[derive(Debug, Clone, Copy, PartialEq, Eq, Structural)]
pub struct FileWrite {
    /// The number of blocks to add to the file
    pub blocks_to_alloc: u64,
    /// The size of the file after the write
    pub new_size: u64,
    /// Whether the bytes of the last written block after the write are kept:
    /// the write ends before the end of the file
    pub keep_last_block_data: bool,
}

/// How a write of `len` bytes at byte `offset` into a file of `size` bytes
/// that has `block_count` blocks changes the file: it gets the blocks that
/// the bytes up to the end of the write need, and grows to the end of the
/// write; the bytes after the write are kept where the file goes on.
pub open spec fn spec_file_write(size: u64, block_count: u64, offset: u64, len: u64) -> FileWrite {
    let write_len = offset + len;
    let required = spec_blocks_required_for(write_len as nat);
    FileWrite {
        blocks_to_alloc: if required > block_count {
            (required - block_count) as u64
        } else {
            0
        },
        new_size: if write_len > size {
            write_len as u64
        } else {
            size
        },
        keep_last_block_data: write_len < size,
    }
}

/// How a write of `len` bytes at byte `offset` changes a file of `size`
/// bytes with `block_count` blocks, see [spec_file_write]. The end of the
/// write must fit into a `u64`.
pub fn plan_file_write(size: u64, block_count: u64, offset: u64, len: u64) -> (r: FileWrite)
    requires
        offset + len <= u64::MAX,
    ensures
        r == spec_file_write(size, block_count, offset, len),
{
    let write_len = offset + len;
    let required = blocks_required_for(write_len);
    let blocks_to_alloc = if required > block_count {
        required - block_count
    } else {
        0
    };
    let new_size = if write_len > size {
        write_len
    } else {
        size
    };
    FileWrite { blocks_to_alloc, new_size, keep_last_block_data: write_len < size }
}

/// Where a write of bytes lies on the blocks it touches.
#[derive(Debug, Clone, Copy, PartialEq, Eq, Structural)]
pub struct WriteLayout {
    /// The position of the first written byte in its block
    pub offset_in_first_block: u64,
    /// The position after the last written byte in its block, `0` if the
    /// write ends at the end of a block
    pub last_block_end: u64,
    /// The number of blocks the write touches
    pub block_count: u64,
}

/// Where a write of `len` bytes at byte `offset` lies on its blocks.
pub open spec fn spec_write_layout(offset: u64, len: u64) -> WriteLayout {
    let in_first = offset % (BLOCK_SIZE as u64);
    WriteLayout {
        offset_in_first_block: in_first,
        last_block_end: ((in_first + len) % (BLOCK_SIZE as int)) as u64,
        block_count: spec_blocks_required_for((in_first + len) as nat) as u64,
    }
}

/// Where a write of `len` bytes at byte `offset` lies on its blocks, see
/// [spec_write_layout].
pub fn write_layout(offset: u64, len: u64) -> (r: WriteLayout)
    requires
        len + BLOCK_SIZE <= u64::MAX,
    ensures
        r == spec_write_layout(offset, len),
{
    let offset_block_skip = offset / BLOCK_SIZE as u64;
    proof {
        vstd::arithmetic::div_mod::lemma_fundamental_div_mod(offset as int, BLOCK_SIZE as int);
    }
    let offset_in_first_block = offset - offset_block_skip * BLOCK_SIZE as u64;
    let end = offset_in_first_block + len;
    WriteLayout {
        offset_in_first_block,
        last_block_end: end % BLOCK_SIZE as u64,
        block_count: blocks_required_for(end),
    }
}

/// The bytes of the first block that a write at `layout` keeps: those before
/// the write, taken from `first_block`.
pub open spec fn spec_kept_start(layout: WriteLayout, first_block: Seq<u8>) -> Seq<u8> {
    first_block.take(layout.offset_in_first_block as int)
}

/// The bytes of the last block that a write at `layout` keeps: those after
/// the write, taken from `last_block` if the data after the write is kept
/// and zero otherwise; nothing if the write ends at the end of a block.
pub open spec fn spec_kept_end(layout: WriteLayout, keep: bool, last_block: Seq<u8>) -> Seq<u8> {
    if layout.last_block_end == 0 {
        Seq::empty()
    } else if keep {
        last_block.skip(layout.last_block_end as int)
    } else {
        Seq::new((BLOCK_SIZE - layout.last_block_end) as nat, |i: int| 0u8)
    }
}

/// The parts of the first and the last block that a write at `layout`
/// keeps, see [spec_kept_start] and [spec_kept_end]. `first_block` and
/// `last_block` are the blocks as they are on the device; they are only
/// looked at where their bytes are kept.
pub fn kept_parts(layout: WriteLayout, keep: bool, first_block: &[u8], last_block: &[u8]) -> (r: (
    Vec<u8>,
    Vec<u8>,
))
    requires
        layout.offset_in_first_block < BLOCK_SIZE,
        layout.last_block_end < BLOCK_SIZE,
        layout.offset_in_first_block > 0 ==> first_block@.len() == BLOCK_SIZE,
        keep && layout.last_block_end != 0 ==> last_block@.len() == BLOCK_SIZE,
    ensures
        r.0@ == spec_kept_start(layout, first_block@),
        r.1@ == spec_kept_end(layout, keep, last_block@),
{
    let start = if layout.offset_in_first_block > 0 {
        vstd::slice::slice_to_vec(
            vstd::slice::slice_subrange(first_block, 0, layout.offset_in_first_block as usize),
        )
    } else {
        Vec::new()
    };
    proof {
        assert(start@ =~= spec_kept_start(layout, first_block@));
    }
    let end = layout.last_block_end as usize;
    let kept_end = if end == 0 {
        Vec::new()
    } else if keep {
        vstd::slice::slice_to_vec(vstd::slice::slice_subrange(last_block, end, BLOCK_SIZE))
    } else {
        let mut zeros: Vec<u8> = Vec::new();
        while zeros.len() < BLOCK_SIZE - end
            invariant
                end < BLOCK_SIZE,
                zeros@.len() <= BLOCK_SIZE - end,
                forall|i: int| 0 <= i < zeros@.len() ==> zeros@[i] == 0u8,
            decreases BLOCK_SIZE - end - zeros@.len(),
        {
            zeros.push(0u8);
        }
        zeros
    };
    proof {
        assert(kept_end@ =~= spec_kept_end(layout, keep, last_block@));
    }
    (start, kept_end)
}

/// A write of `data` at byte `offset` with the kept parts of its first and
/// last block fills whole blocks: the [WriteData] made of them is valid.
pub proof fn lemma_write_data_valid(
    offset: u64,
    data: &[u8],
    keep: bool,
    first_block: Seq<u8>,
    last_block: Seq<u8>,
    start: &[u8],
    end: &[u8],
)
    requires
        data@.len() + BLOCK_SIZE <= u64::MAX,
        first_block.len() == BLOCK_SIZE,
        last_block.len() == BLOCK_SIZE,
        start@ == spec_kept_start(spec_write_layout(offset, data@.len() as u64), first_block),
        end@ == spec_kept_end(spec_write_layout(offset, data@.len() as u64), keep, last_block),
    ensures
        (WriteData { data, old_block_start: start, old_block_end: end }).spec_is_valid(),
        (WriteData { data, old_block_start: start, old_block_end: end }).spec_total_len() == spec_write_layout(
            offset,
            data@.len() as u64,
        ).block_count * BLOCK_SIZE,
{
    let layout = spec_write_layout(offset, data@.len() as u64);
    let b = BLOCK_SIZE as int;
    let first = layout.offset_in_first_block as int;
    let len = data@.len() as int;
    let last = layout.last_block_end as int;
    let total = first + len + end@.len();
    vstd::arithmetic::div_mod::lemma_fundamental_div_mod(first + len, b);
    if last == 0 {
        assert(total == first + len);
        assert(total % b == 0);
        assert(total == layout.block_count * b);
    } else {
        assert(end@.len() == b - last);
        assert(total == b * ((first + len) / b) + b);
        assert(total % b == 0) by {
            vstd::arithmetic::div_mod::lemma_mod_multiples_basic((first + len) / b + 1, b);
            assert(total == ((first + len) / b + 1) * b) by (nonlinear_arith)
                requires
                    total == b * ((first + len) / b) + b,
            ;
        }
        assert(total == layout.block_count * b) by (nonlinear_arith)
            requires
                total == b * ((first + len) / b) + b,
                layout.block_count == (first + len) / b + 1,
        ;
    }
}

/// The blocks needed for `bytes` bytes hold them, and one block fewer would
/// not.
pub proof fn lemma_blocks_required_for_bounds(bytes: nat)
    ensures
        spec_blocks_required_for(bytes) * BLOCK_SIZE >= bytes,
        spec_blocks_required_for(bytes) > 0 ==> (spec_blocks_required_for(bytes) - 1) * BLOCK_SIZE
            < bytes,
{
    let b = BLOCK_SIZE as int;
    vstd::arithmetic::div_mod::lemma_fundamental_div_mod(bytes as int, b);
    let q = bytes as int / b;
    let r = bytes as int % b;
    if r == 0 {
        assert(q * b == bytes) by (nonlinear_arith)
            requires
                bytes == b * q + r,
                r == 0,
        ;
        if q > 0 {
            assert((q - 1) * b < bytes) by (nonlinear_arith)
                requires
                    q * b == bytes,
                    b > 0,
            ;
        }
    } else {
        assert((q + 1) * b >= bytes && q * b < bytes) by (nonlinear_arith)
            requires
                bytes == b * q + r,
                0 < r < b,
        ;
    }
}

/// After a write the file has a block for every byte up to the end of the
/// write, and no more blocks are added than that needs: none where the file's
/// blocks already reach the end of the write. The file grows to the end of
/// the write where it ended before, and the bytes of the last block after
/// the write are kept exactly where the file goes on after the write.
pub proof fn lemma_file_write_fits(size: u64, block_count: u64, offset: u64, len: u64)
    requires
        offset + len <= u64::MAX,
    ensures
        ({
            let r = spec_file_write(size, block_count, offset, len);
            let end = offset + len;
            &&& (block_count + r.blocks_to_alloc) * BLOCK_SIZE >= end
            &&& block_count * BLOCK_SIZE >= end ==> r.blocks_to_alloc == 0
            &&& r.blocks_to_alloc > 0 ==> (block_count + r.blocks_to_alloc - 1) * BLOCK_SIZE < end
            &&& r.new_size >= size && r.new_size >= end
            &&& (r.new_size == size || r.new_size == end)
            &&& r.keep_last_block_data == (end < size)
        }),
{
    let end = (offset + len) as nat;
    let required = spec_blocks_required_for(end);
    lemma_blocks_required_for_bounds(end);
    let r = spec_file_write(size, block_count, offset, len);
    if required > block_count {
        assert(block_count + r.blocks_to_alloc == required);
        assert(block_count * BLOCK_SIZE < end) by (nonlinear_arith)
            requires
                block_count <= required - 1,
                (required - 1) * BLOCK_SIZE < end,
        ;
    } else {
        assert((block_count + r.blocks_to_alloc) * BLOCK_SIZE >= end) by (nonlinear_arith)
            requires
                block_count >= required,
                r.blocks_to_alloc == 0,
                required * BLOCK_SIZE >= end,
        ;
    }
}

} // verus!
