//! Strings stored on the device: a head block holds the length and the first
//! bytes, and the rest follows in a chain of part blocks.
//!
//! Writing a string plans the blocks: it allocates them and splits the bytes
//! over them; the caller writes each block to its address. Reading follows
//! the chain: the caller reads the block that [StringReader::next_block]
//! names and hands it to [StringReader::take_part] until the reader has all
//! bytes.

use vstd::prelude::*;
use vstd::string::StringSliceAdditionalSpecFns;
use vstd::utf8::{encode_utf8, valid_utf8};

use super::block_allocator::{
    block_seq, lemma_block_seq_contains, lemma_block_seq_distinct, lemma_block_seq_len,
    lemma_sum_counts_front, BlockAllocator, FsError,
};
use super::free_list::blocks_of;
use super::lba::{counts_required_for, spec_counts_required_for, LBA};
use crate::staticvec::string::str_from_utf8;

verus! {

/// The number of bytes of a string that its head block holds.
pub const BLOCK_STRING_DATA_LENGTH: usize = 4084;

/// The number of bytes of a string that a part block holds.
pub const BLOCK_STRING_PART_DATA_LENGTH: usize = 4088;

/// The head block of a string: the length of the whole string, its first
/// bytes, padded with zeros to [BLOCK_STRING_DATA_LENGTH], and the first
/// part block if the string does not fit into the head.
#[derive(Debug, Clone, PartialEq, Eq)]
pub struct StringHead {
    /// The length of the string in bytes
    pub length: u32,
    /// The first bytes of the string
    pub data: Vec<u8>,
    /// The first part block
    pub next: Option<LBA>,
}

/// A part block of a string: the next bytes, padded with zeros to
/// [BLOCK_STRING_PART_DATA_LENGTH], and the next part block.
#[derive(Debug, Clone, PartialEq, Eq)]
pub struct StringPart {
    /// The bytes of the string held here
    pub data: Vec<u8>,
    /// The next part block
    pub next: Option<LBA>,
}

/// `n` zero bytes.
pub open spec fn zeros(n: nat) -> Seq<u8> {
    Seq::new(n, |i: int| 0u8)
}

/// `s` followed by zeros up to the length `n`.
pub open spec fn padded(s: Seq<u8>, n: nat) -> Seq<u8> {
    s + zeros((n - s.len()) as nat)
}

/// The smaller of two numbers.
pub open spec fn min(a: int, b: int) -> int {
    if a < b {
        a
    } else {
        b
    }
}

/// The bytes of `s` that the `k`th of a chain of parts holds, each of which
/// holds [BLOCK_STRING_PART_DATA_LENGTH] bytes.
pub open spec fn chunk(s: Seq<u8>, k: int) -> Seq<u8> {
    s.subrange(
        min(k * BLOCK_STRING_PART_DATA_LENGTH, s.len() as int),
        min((k + 1) * BLOCK_STRING_PART_DATA_LENGTH, s.len() as int),
    )
}

/// The number of part blocks of a string of `len` bytes.
pub open spec fn part_count(len: nat) -> nat {
    if len > BLOCK_STRING_DATA_LENGTH {
        spec_counts_required_for(
            BLOCK_STRING_PART_DATA_LENGTH as nat,
            (len - BLOCK_STRING_DATA_LENGTH) as nat,
        )
    } else {
        0
    }
}

/// Whether `parts` are the part blocks at `lbas` that hold `bytes`: part `k`
/// lies at `lbas[k]`, holds the `k`th chunk and links to the next part.
pub open spec fn holds_parts(bytes: Seq<u8>, lbas: Seq<LBA>, parts: Seq<(LBA, StringPart)>) -> bool {
    &&& parts.len() == lbas.len()
    &&& forall|k: int|
        0 <= k < parts.len() ==> {
            &&& (#[trigger] parts[k]).0 == lbas[k]
            &&& parts[k].1.data@ == padded(chunk(bytes, k), BLOCK_STRING_PART_DATA_LENGTH as nat)
            &&& parts[k].1.next == if k + 1 < lbas.len() {
                Some(lbas[k + 1])
            } else {
                None
            }
        }
}

/// Whether `head` and `parts` store the string `s`: the head holds its length
/// and first bytes, the parts hold the rest, and the head links to the first
/// part.
pub open spec fn stores_string(s: Seq<u8>, head: StringHead, parts: Seq<(LBA, StringPart)>) -> bool {
    let in_head = min(s.len() as int, BLOCK_STRING_DATA_LENGTH as int);
    &&& head.length == s.len()
    &&& head.data@ == padded(s.take(in_head), BLOCK_STRING_DATA_LENGTH as nat)
    &&& parts.len() == part_count(s.len())
    &&& holds_parts(s.skip(BLOCK_STRING_DATA_LENGTH as int), parts.map_values(|p: (LBA, StringPart)| p.0), parts)
    &&& head.next == if parts.len() > 0 {
        Some(parts[0].0)
    } else {
        None
    }
}

/// A copy of `bytes` followed by zeros up to the length `n`.
fn padded_copy(bytes: &[u8], n: usize) -> (r: Vec<u8>)
    requires
        bytes@.len() <= n,
    ensures
        r@ == padded(bytes@, n as nat),
{
    let mut r = vstd::slice::slice_to_vec(bytes);
    while r.len() < n
        invariant
            bytes@.len() <= n,
            bytes@.len() <= r@.len() <= n,
            r@ == bytes@ + zeros((r@.len() - bytes@.len()) as nat),
        decreases n - r@.len(),
    {
        let ghost before = r@;
        r.push(0u8);
        proof {
            assert(r@ =~= bytes@ + zeros((r@.len() - bytes@.len()) as nat));
        }
    }
    r
}

/// The first chunk starts before the end of the bytes for every part a chain
/// of [spec_counts_required_for] parts has.
proof fn lemma_chunk_starts(len: nat, n: nat, k: int)
    requires
        n == spec_counts_required_for(BLOCK_STRING_PART_DATA_LENGTH as nat, len),
        0 <= k < n,
    ensures
        k * BLOCK_STRING_PART_DATA_LENGTH < len,
        n * BLOCK_STRING_PART_DATA_LENGTH >= len,
{
    let p = BLOCK_STRING_PART_DATA_LENGTH as int;
    let l = len as int;
    vstd::arithmetic::div_mod::lemma_fundamental_div_mod(l, p);
    assert(n == (if l % p == 0 {
        l / p
    } else {
        l / p + 1
    }));
    assert(k * p < l && n * p >= l) by (nonlinear_arith)
        requires
            l == p * (l / p) + l % p,
            0 <= l % p < p,
            n == (if l % p == 0 {
                l / p
            } else {
                l / p + 1
            }),
            0 <= k < n,
            p > 0,
    ;
}

/// The part blocks at `lbas` that hold `bytes`, see [holds_parts]; there must
/// be exactly as many blocks as the bytes need, and at least one.
pub fn string_parts(bytes: &[u8], lbas: &[LBA]) -> (r: Vec<(LBA, StringPart)>)
    requires
        lbas@.len() == spec_counts_required_for(BLOCK_STRING_PART_DATA_LENGTH as nat, bytes@.len()),
        lbas@.len() > 0,
    ensures
        holds_parts(bytes@, lbas@, r@),
{
    let n = lbas.len();
    let len = bytes.len();
    let mut r: Vec<(LBA, StringPart)> = Vec::new();
    let mut k: usize = 0;
    while k < n
        invariant
            n == lbas@.len(),
            len == bytes@.len(),
            n == spec_counts_required_for(BLOCK_STRING_PART_DATA_LENGTH as nat, len as nat),
            k <= n,
            r@.len() == k,
            forall|j: int|
                0 <= j < k ==> {
                    &&& (#[trigger] r@[j]).0 == lbas@[j]
                    &&& r@[j].1.data@ == padded(chunk(bytes@, j), BLOCK_STRING_PART_DATA_LENGTH as nat)
                    &&& r@[j].1.next == if j + 1 < n {
                        Some(lbas@[j + 1])
                    } else {
                        None
                    }
                },
        decreases n - k,
    {
        proof {
            lemma_chunk_starts(len as nat, n as nat, k as int);
        }
        let start = k * BLOCK_STRING_PART_DATA_LENGTH;
        let end = if len - start > BLOCK_STRING_PART_DATA_LENGTH {
            start + BLOCK_STRING_PART_DATA_LENGTH
        } else {
            len
        };
        let piece = vstd::slice::slice_subrange(bytes, start, end);
        let data = padded_copy(piece, BLOCK_STRING_PART_DATA_LENGTH);
        let next = if k + 1 < n {
            Some(lbas[k + 1])
        } else {
            None
        };
        proof {
            assert(piece@ == chunk(bytes@, k as int));
        }
        r.push((lbas[k], StringPart { data, next }));
        k += 1;
    }
    r
}

/// The blocks a string is written to: the head block's address and
/// content, and the part blocks with their addresses.
#[derive(Debug, Clone, PartialEq, Eq)]
pub struct StringBlocks {
    /// The address of the head block
    pub head_lba: LBA,
    /// The head block
    pub head: StringHead,
    /// The part blocks with their addresses, in the order of the chain
    pub parts: Vec<(LBA, StringPart)>,
}

/// The addresses of the blocks of a string, the head block's first.
pub open spec fn string_block_lbas(head_lba: LBA, parts: Seq<(LBA, StringPart)>) -> Seq<int> {
    seq![head_lba@ as int] + parts.map_values(|p: (LBA, StringPart)| p.0@ as int)
}

/// Allocates the blocks for `string` and splits it over them, see
/// [stores_string]; the caller writes each block to its address.
///
/// Fails with [FsError::BlockDeviceFull] if the allocator has fewer free
/// blocks than the string needs, or with [FsError::StringToLong], after
/// the blocks were allocated, if the length does not fit into a `u32`.
pub fn prepare_string(allocator: &mut BlockAllocator, string: &str) -> (r: Result<
    StringBlocks,
    FsError,
>)
    requires
        old(allocator).inv(),
    ensures
        final(allocator).inv(),
        old(allocator).free_blocks().finite(),
        old(allocator).free_blocks().len() < part_count(string.spec_bytes().len()) + 1 ==> r
            == Err::<StringBlocks, FsError>(
            FsError::BlockDeviceFull((part_count(string.spec_bytes().len()) + 1) as u64),
        ) && final(allocator).free_blocks() == old(allocator).free_blocks(),
        old(allocator).free_blocks().len() >= part_count(string.spec_bytes().len()) + 1 ==> {
            &&& string.spec_bytes().len() > u32::MAX ==> r == Err::<StringBlocks, FsError>(
                FsError::StringToLong,
            ) && final(allocator).free_blocks().subset_of(old(allocator).free_blocks())
            &&& string.spec_bytes().len() <= u32::MAX ==> r is Ok
        },
        r matches Ok(blocks) ==> {
            let lbas = string_block_lbas(blocks.head_lba, blocks.parts@);
            &&& stores_string(string.spec_bytes(), blocks.head, blocks.parts@)
            &&& lbas.no_duplicates()
            &&& forall|b: int| lbas.contains(b) ==> old(allocator).free_blocks().contains(b)
            &&& forall|b: int|
                final(allocator).free_blocks().contains(b) <==> old(allocator).free_blocks().contains(
                    b,
                ) && !lbas.contains(b)
        },
{
    let bytes = string.as_bytes();
    let len = bytes.len();
    let length_in_parts: usize = if len > BLOCK_STRING_DATA_LENGTH {
        len - BLOCK_STRING_DATA_LENGTH
    } else {
        0
    };
    let length_in_head: usize = if len > BLOCK_STRING_DATA_LENGTH {
        BLOCK_STRING_DATA_LENGTH
    } else {
        len
    };
    let part_block_count = counts_required_for(
        BLOCK_STRING_PART_DATA_LENGTH as u64,
        length_in_parts as u64,
    );
    proof {
        assert(part_block_count <= length_in_parts) by (nonlinear_arith)
            requires
                part_block_count == spec_counts_required_for(4088, length_in_parts as nat),
                length_in_parts <= usize::MAX,
        {
            if length_in_parts as nat % 4088 != 0 {
                assert(length_in_parts as nat / 4088 < length_in_parts);
            }
        }
        assert(part_block_count == part_count(len as nat));
    }
    let list = match allocator.allocate(part_block_count + 1) {
        Ok(list) => list,
        Err(e) => {
            return Err(e);
        },
    };
    let ghost groups = list.groups@;
    proof {
        lemma_block_seq_len(groups);
        lemma_sum_counts_front(groups);
        lemma_block_seq_distinct(groups);
    }
    let lbas = list.blocks();
    proof {
        assert(lbas@.len() == block_seq(groups).len());
    }
    if len > u32::MAX as usize {
        proof {
            assert(allocator.free_blocks().subset_of(old(allocator).free_blocks()));
        }
        return Err(FsError::StringToLong);
    }
    let head_lba = lbas[0];
    let head_data = padded_copy(vstd::slice::slice_subrange(bytes, 0, length_in_head), BLOCK_STRING_DATA_LENGTH);
    let mut parts: Vec<(LBA, StringPart)> = Vec::new();
    let mut next: Option<LBA> = None;
    if length_in_parts > 0 {
        let rest = vstd::slice::slice_subrange(bytes, BLOCK_STRING_DATA_LENGTH, len);
        let part_lbas = vstd::slice::slice_subrange(lbas.as_slice(), 1, lbas.len());
        parts = string_parts(rest, part_lbas);
        next = Some(lbas[1]);
        proof {
            assert(rest@ =~= bytes@.skip(BLOCK_STRING_DATA_LENGTH as int));
            assert(parts@.map_values(|p: (LBA, StringPart)| p.0) =~= part_lbas@);
        }
    }
    let head = StringHead { length: len as u32, data: head_data, next };
    proof {
        let in_head = min(len as int, BLOCK_STRING_DATA_LENGTH as int);
        assert(bytes@.subrange(0, length_in_head as int) =~= bytes@.take(in_head));
        if length_in_parts == 0 {
            assert(parts@.map_values(|p: (LBA, StringPart)| p.0) =~= Seq::<LBA>::empty());
        }
        let all = string_block_lbas(head_lba, parts@);
        assert(all =~= lbas@.map_values(|l: LBA| l@ as int)) by {
            assert forall|i: int| 0 <= i < all.len() implies all[i] == lbas@.map_values(
                |l: LBA| l@ as int,
            )[i] by {
                if i > 0 {
                    assert(parts@[i - 1].0 == lbas@[i]);
                }
            }
        }
        assert forall|b: int| all.contains(b) implies old(allocator).free_blocks().contains(b) by {
            lemma_block_seq_contains(groups, b);
        }
        assert forall|b: int|
            allocator.free_blocks().contains(b) <==> old(allocator).free_blocks().contains(b)
                && !all.contains(b) by {
            lemma_block_seq_contains(groups, b);
            assert(blocks_of(groups).contains(b) <==> all.contains(b));
        }
    }
    Ok(StringBlocks { head_lba, head, parts })
}

/// What a reader holds: the bytes read so far, the number of bytes still
/// to read, and the part block to read them from.
pub type ReaderState = (Seq<u8>, nat, Option<LBA>);

/// The part blocks without their addresses.
pub open spec fn part_values(parts: Seq<(LBA, StringPart)>) -> Seq<StringPart> {
    parts.map_values(|p: (LBA, StringPart)| p.1)
}

/// The state of a reader that read the head block `head`.
pub open spec fn reader_start(head: StringHead) -> ReaderState {
    let take = min(head.length as int, BLOCK_STRING_DATA_LENGTH as int);
    (head.data@.take(take), (head.length - take) as nat, head.next)
}

/// The state of a reader in the state `st` after it read the part block
/// `part`.
pub open spec fn reader_take(st: ReaderState, part: StringPart) -> ReaderState {
    let take = min(st.1 as int, BLOCK_STRING_PART_DATA_LENGTH as int);
    (st.0 + part.data@.take(take), (st.1 - take) as nat, part.next)
}

/// The state of a reader in the state `st` after it read the part blocks
/// `parts`, in order.
pub open spec fn reader_feed(st: ReaderState, parts: Seq<StringPart>) -> ReaderState
    decreases parts.len(),
{
    if parts.len() == 0 {
        st
    } else {
        reader_take(reader_feed(st, parts.drop_last()), parts.last())
    }
}

/// Reads a string from its head block and the chain of its part blocks.
pub struct StringReader {
    bytes: Vec<u8>,
    remaining: usize,
    next: Option<LBA>,
}

impl StringReader {
    /// The state of the reader.
    pub closed spec fn state(&self) -> ReaderState {
        (self.bytes@, self.remaining as nat, self.next)
    }

    /// A reader that read the head block `head`.
    pub fn new(head: &StringHead) -> (r: Self)
        requires
            head.data@.len() == BLOCK_STRING_DATA_LENGTH,
        ensures
            r.state() == reader_start(*head),
    {
        let length = head.length as usize;
        let take = if length < BLOCK_STRING_DATA_LENGTH {
            length
        } else {
            BLOCK_STRING_DATA_LENGTH
        };
        let bytes = vstd::slice::slice_to_vec(
            vstd::slice::slice_subrange(head.data.as_slice(), 0, take),
        );
        proof {
            assert(bytes@ =~= head.data@.take(take as int));
        }
        StringReader { bytes, remaining: length - take, next: head.next }
    }

    /// The part block to read next, `None` once all bytes are read; fails
    /// with [FsError::MalformedStringLength] if bytes are missing but no
    /// part block follows.
    pub fn next_block(&self) -> (r: Result<Option<LBA>, FsError>)
        ensures
            r == (if self.state().1 == 0 {
                Ok(None)
            } else {
                match self.state().2 {
                    Some(lba) => Ok(Some(lba)),
                    None => Err(FsError::MalformedStringLength),
                }
            }),
    {
        if self.remaining == 0 {
            return Ok(None);
        }
        match self.next {
            Some(lba) => Ok(Some(lba)),
            None => Err(FsError::MalformedStringLength),
        }
    }

    /// Reads the part block `part`, which [StringReader::next_block] named.
    pub fn take_part(&mut self, part: &StringPart)
        requires
            old(self).state().1 > 0,
            part.data@.len() == BLOCK_STRING_PART_DATA_LENGTH,
        ensures
            final(self).state() == reader_take(old(self).state(), *part),
    {
        let take = if self.remaining < BLOCK_STRING_PART_DATA_LENGTH {
            self.remaining
        } else {
            BLOCK_STRING_PART_DATA_LENGTH
        };
        let piece = vstd::slice::slice_subrange(part.data.as_slice(), 0, take);
        let mut bytes: Vec<u8> = Vec::new();
        std::mem::swap(&mut bytes, &mut self.bytes);
        let ghost before = bytes@;
        let mut k: usize = 0;
        while k < take
            invariant
                take <= piece@.len(),
                k <= take,
                bytes@ == before + piece@.take(k as int),
            decreases take - k,
        {
            bytes.push(piece[k]);
            proof {
                assert(piece@.take(k + 1) =~= piece@.take(k as int).push(piece@[k as int]));
            }
            k += 1;
        }
        proof {
            assert(piece@.take(take as int) =~= part.data@.take(take as int));
        }
        self.bytes = bytes;
        self.remaining = self.remaining - take;
        self.next = part.next;
    }

    /// The string read, once all bytes are read; fails with
    /// [FsError::MalformedStringUtf8] if they are not valid UTF-8.
    pub fn finish(self) -> (r: Result<String, FsError>)
        requires
            self.state().1 == 0,
        ensures
            valid_utf8(self.state().0) ==> (r matches Ok(s) && encode_utf8(s@) == self.state().0),
            !valid_utf8(self.state().0) ==> r == Err::<String, FsError>(FsError::MalformedStringUtf8),
    {
        match str_from_utf8(self.bytes.as_slice()) {
            Some(s) => Ok(s.to_owned()),
            None => Err(FsError::MalformedStringUtf8),
        }
    }
}

/// The blocks of a stored string read in order: the reader has the first
/// `k` parts' worth of bytes and, while bytes are missing, asks for part
/// `k` next.
#[verifier::spinoff_prover]
#[verifier::rlimit(40)]
proof fn lemma_read_prefix(s: Seq<u8>, head: StringHead, parts: Seq<(LBA, StringPart)>, k: int)
    requires
        stores_string(s, head, parts),
        0 <= k <= parts.len(),
    ensures
        reader_feed(reader_start(head), part_values(parts).take(k)) == (
            s.take(min(s.len() as int, BLOCK_STRING_DATA_LENGTH + k * BLOCK_STRING_PART_DATA_LENGTH)),
            (s.len() - min(s.len() as int, BLOCK_STRING_DATA_LENGTH + k * BLOCK_STRING_PART_DATA_LENGTH)) as nat,
            if k < parts.len() {
                Some(parts[k].0)
            } else {
                None::<LBA>
            },
        ),
    decreases k,
{
    let h = BLOCK_STRING_DATA_LENGTH as int;
    let p = BLOCK_STRING_PART_DATA_LENGTH as int;
    let len = s.len() as int;
    let n = parts.len() as int;
    let values = part_values(parts);
    let lbas = parts.map_values(|q: (LBA, StringPart)| q.0);
    let rest = s.skip(h);
    if len <= h {
        assert(n == 0);
    } else {
        assert(rest.len() == len - h);
        if k < n {
            lemma_chunk_starts((len - h) as nat, n as nat, k);
        }
        if n > 0 {
            lemma_chunk_starts((len - h) as nat, n as nat, n - 1);
        }
    }
    if k == 0 {
        assert(values.take(0) =~= Seq::<StringPart>::empty());
        assert(head.data@.take(min(len, h)) =~= s.take(min(len, h)));
    } else {
        lemma_read_prefix(s, head, parts, k - 1);
        assert(values.take(k).drop_last() =~= values.take(k - 1));
        assert(values.take(k).last() == parts[k - 1].1);
        let prev = reader_feed(reader_start(head), values.take(k - 1));
        assert(len > h);
        lemma_chunk_starts((len - h) as nat, n as nat, k - 1);
        assert(h + (k - 1) * p < len);
        let take = min(prev.1 as int, p);
        let piece = chunk(rest, k - 1);
        assert(parts[k - 1].1.data@ == padded(piece, p as nat));
        assert(piece.len() == take);
        assert(parts[k - 1].1.data@.take(take) =~= piece);
        assert(piece =~= s.subrange(h + (k - 1) * p, min(len, h + k * p)));
        assert(prev.0 + piece =~= s.take(min(len, h + k * p)));
        assert(lbas[k - 1] == parts[k - 1].0);
        if k < n {
            assert(lbas[k] == parts[k].0);
        }
    }
}

/// What a read gives back of a write: reading the head block of a stored
/// string and then, in order, each part block that the reader asks for,
/// gives back the string's bytes.
pub proof fn lemma_string_read_back(s: Seq<u8>, head: StringHead, parts: Seq<(LBA, StringPart)>)
    requires
        stores_string(s, head, parts),
    ensures
        forall|k: int|
            0 <= k < parts.len() ==> {
                let st = #[trigger] reader_feed(
                    reader_start(head),
                    part_values(parts).take(k),
                );
                st.1 > 0 && st.2 == Some(parts[k].0)
            },
        reader_feed(reader_start(head), part_values(parts)).1 == 0,
        reader_feed(reader_start(head), part_values(parts)).0 == s,
{
    let values = part_values(parts);
    assert forall|k: int| 0 <= k < parts.len() implies {
        let st = #[trigger] reader_feed(reader_start(head), values.take(k));
        st.1 > 0 && st.2 == Some(parts[k].0)
    } by {
        lemma_read_prefix(s, head, parts, k);
        lemma_chunk_starts(
            (s.len() - BLOCK_STRING_DATA_LENGTH) as nat,
            parts.len(),
            k,
        );
    }
    lemma_read_prefix(s, head, parts, parts.len() as int);
    assert(values.take(parts.len() as int) =~= values);
    let n = parts.len() as int;
    if n > 0 {
        lemma_chunk_starts((s.len() - BLOCK_STRING_DATA_LENGTH) as nat, n as nat, n - 1);
    }
    assert(s.take(s.len() as int) =~= s);
}

} // verus!
