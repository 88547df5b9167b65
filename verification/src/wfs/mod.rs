//! The Wasabi file system: block addresses and the allocation of blocks.

pub mod lba;
pub mod block;

pub use lba::{BlockGroup, LBA, BLOCK_SIZE};
pub mod free_list;
pub mod fs_structs;
pub mod block_allocator;
pub mod interface;
pub mod existing_fs_check;
pub mod mount;
pub mod mem_structs;
pub mod strings;
pub mod file_write;
pub mod mem_tree;
