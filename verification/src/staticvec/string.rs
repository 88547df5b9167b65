//! A string stored in a buffer of fixed capacity, and the byte level helpers
//! it is built on.

use vstd::prelude::*;
use vstd::string::StringSliceAdditionalSpecFns;
use vstd::utf8::{
    encode_scalar, is_char_boundary, last_continuation_byte, leading_byte_width_2,
    leading_byte_width_3, leading_byte_width_4, second_last_continuation_byte,
    third_last_continuation_byte, valid_utf8,
};

verus! {

broadcast use {
    vstd::utf8::char_is_scalar,
    vstd::utf8::encode_utf8_valid_utf8,
    vstd::utf8::is_char_boundary_iff_not_is_continuation_byte,
    vstd::utf8::is_char_boundary_start_end_of_seq,
};

/// Errors of the operations on a [StaticString].
#[derive(Debug, Clone, Copy, PartialEq, Eq, Structural)]
pub enum StringError {
    /// A position or size lies beyond the limit
    OutOfBounds,
    /// A position lies inside the encoding of a character
    NotCharBoundary,
}

/// The error of an operation that needs more room than a [StaticString] has.
#[derive(Debug, Clone, Copy, PartialEq, Eq, Structural)]
pub struct CapacityError;

/// Fails with [StringError::OutOfBounds] if `size` is greater than `limit`.
pub fn is_inside_boundary(size: usize, limit: usize) -> (r: Result<(), StringError>)
    ensures
        r == (if size <= limit {
            Ok(())
        } else {
            Err(StringError::OutOfBounds)
        }),
{
    if size <= limit {
        Ok(())
    } else {
        Err(StringError::OutOfBounds)
    }
}

/// Whether `index` is the start of a character's encoding in `s`, or its end.
pub fn str_is_char_boundary(s: &str, index: usize) -> (r: bool)
    ensures
        r == is_char_boundary(s.spec_bytes(), index as int),
{
    let bytes = s.as_bytes();
    let len = bytes.len();
    proof {
        vstd::utf8::encode_utf8_valid_utf8(s@);
        vstd::utf8::is_char_boundary_start_end_of_seq(bytes@);
    }
    if index == 0 || index == len {
        true
    } else if index > len {
        false
    } else {
        let b = bytes[index];
        proof {
            vstd::utf8::is_char_boundary_iff_not_is_continuation_byte(bytes@, index as int);
            assert(vstd::utf8::is_continuation_byte(b) == (0x80 <= b <= 0xbf));
        }
        b < 0x80 || b >= 0xc0
    }
}

/// Whether `b` is the largest character boundary in `bytes` that is not
/// greater than `size`.
pub open spec fn is_last_boundary_up_to(bytes: Seq<u8>, size: int, b: int) -> bool {
    &&& 0 <= b <= size
    &&& b <= bytes.len()
    &&& is_char_boundary(bytes, b)
    &&& forall|j: int| b < j <= size ==> !is_char_boundary(bytes, j)
}

/// `slice` cut to at most `size` bytes, without the bytes of a character
/// that would not fit whole.
pub fn truncate_str(slice: &str, size: usize) -> (r: &str)
    ensures
        exists|b: int|
            is_last_boundary_up_to(slice.spec_bytes(), size as int, b) && r.spec_bytes()
                == slice.spec_bytes().subrange(0, b),
{
    let ghost bytes = slice.spec_bytes();
    let len = slice.as_bytes().len();
    proof {
        vstd::utf8::encode_utf8_valid_utf8(slice@);
    }
    if str_is_char_boundary(slice, size) {
        let (prefix, _) = slice.split_at(size);
        assert(is_last_boundary_up_to(bytes, size as int, size as int));
        prefix
    } else if size < len {
        let mut index = size - 1;
        while !str_is_char_boundary(slice, index)
            invariant
                len == bytes.len(),
                bytes == slice.spec_bytes(),
                index < size <= len,
                forall|j: int| index < j <= size ==> !is_char_boundary(bytes, j),
            decreases index,
        {
            index -= 1;
        }
        let (prefix, _) = slice.split_at(index);
        assert(is_last_boundary_up_to(bytes, size as int, index as int));
        prefix
    } else {
        assert(forall|j: int| len < j <= size ==> !is_char_boundary(bytes, j));
        assert(is_last_boundary_up_to(bytes, size as int, len as int));
        assert(bytes.subrange(0, len as int) =~= bytes);
        slice
    }
}

/// Calls `core::str::from_utf8`, which by its documentation gives back the
/// string whose bytes are `bytes` where they are valid UTF-8, and an error
/// where they are not.
#[verifier::external_body]
pub(crate) fn str_from_utf8<'a>(bytes: &'a [u8]) -> (r: Option<&'a str>)
    ensures
        valid_utf8(bytes@) <==> r is Some,
        r matches Some(s) ==> s.spec_bytes() == bytes@,
{
    core::str::from_utf8(bytes).ok()
}

/// Marks a continuation byte of a UTF-8 encoding.
pub const TAG_CONT: u8 = 0b1000_0000u8;

/// Marks the first byte of a two byte UTF-8 encoding.
pub const TAG_TWO_B: u8 = 0b1100_0000u8;

/// Marks the first byte of a three byte UTF-8 encoding.
pub const TAG_THREE_B: u8 = 0b1110_0000u8;

/// Marks the first byte of a four byte UTF-8 encoding.
pub const TAG_FOUR_B: u8 = 0b1111_0000u8;

/// The first code point that needs two bytes.
pub const MAX_ONE_B: u32 = 0x80u32;

/// The first code point that needs three bytes.
pub const MAX_TWO_B: u32 = 0x800u32;

/// The first code point that needs four bytes.
pub const MAX_THREE_B: u32 = 0x10000u32;

/// The `len` bytes of the UTF-8 encoding of `code`, for an encoding of two,
/// three or four bytes, followed by zeros.
pub open spec fn raw_encoding(code: u32, len: int) -> Seq<u8> {
    if len == 2 {
        seq![leading_byte_width_2(code), last_continuation_byte(code), 0u8, 0u8]
    } else if len == 3 {
        seq![
            leading_byte_width_3(code),
            second_last_continuation_byte(code),
            last_continuation_byte(code),
            0u8,
        ]
    } else {
        seq![
            leading_byte_width_4(code),
            third_last_continuation_byte(code),
            second_last_continuation_byte(code),
            last_continuation_byte(code),
        ]
    }
}

/// Encodes `code` in `len` bytes of UTF-8, where `len` is two, three or four
/// and the encoding of `code` has that many bytes.
pub fn encode_utf8_raw(code: u32, len: usize) -> (r: [u8; 4])
    requires
        2 <= len <= 4,
    ensures
        r@ == raw_encoding(code, len as int),
{
    let r: [u8; 4] = if len == 2 {
        let a = (code >> 6u32 & 0x1Fu32) as u8 | TAG_TWO_B;
        let b = (code & 0x3Fu32) as u8 | TAG_CONT;
        assert(a == leading_byte_width_2(code)) by (bit_vector)
            requires
                a == ((code >> 6u32 & 0x1Fu32) as u8 | 0b1100_0000u8),
        ;
        assert(b == last_continuation_byte(code)) by (bit_vector)
            requires
                b == ((code & 0x3Fu32) as u8 | 0b1000_0000u8),
        ;
        [a, b, 0u8, 0u8]
    } else if len == 3 {
        let a = (code >> 12u32 & 0x0Fu32) as u8 | TAG_THREE_B;
        let b = (code >> 6u32 & 0x3Fu32) as u8 | TAG_CONT;
        let c = (code & 0x3Fu32) as u8 | TAG_CONT;
        assert(a == leading_byte_width_3(code)) by (bit_vector)
            requires
                a == ((code >> 12u32 & 0x0Fu32) as u8 | 0b1110_0000u8),
        ;
        assert(b == second_last_continuation_byte(code)) by (bit_vector)
            requires
                b == ((code >> 6u32 & 0x3Fu32) as u8 | 0b1000_0000u8),
        ;
        assert(c == last_continuation_byte(code)) by (bit_vector)
            requires
                c == ((code & 0x3Fu32) as u8 | 0b1000_0000u8),
        ;
        [a, b, c, 0u8]
    } else {
        let a = (code >> 18u32 & 0x07u32) as u8 | TAG_FOUR_B;
        let b = (code >> 12u32 & 0x3Fu32) as u8 | TAG_CONT;
        let c = (code >> 6u32 & 0x3Fu32) as u8 | TAG_CONT;
        let d = (code & 0x3Fu32) as u8 | TAG_CONT;
        assert(a == leading_byte_width_4(code)) by (bit_vector)
            requires
                a == ((code >> 18u32 & 0x07u32) as u8 | 0b1111_0000u8),
        ;
        assert(b == third_last_continuation_byte(code)) by (bit_vector)
            requires
                b == ((code >> 12u32 & 0x3Fu32) as u8 | 0b1000_0000u8),
        ;
        assert(c == second_last_continuation_byte(code)) by (bit_vector)
            requires
                c == ((code >> 6u32 & 0x3Fu32) as u8 | 0b1000_0000u8),
        ;
        assert(d == last_continuation_byte(code)) by (bit_vector)
            requires
                d == ((code & 0x3Fu32) as u8 | 0b1000_0000u8),
        ;
        [a, b, c, d]
    };
    assert(r@ =~= raw_encoding(code, len as int));
    r
}

/// The width in bytes of the UTF-8 encoding of `c`.
pub open spec fn utf8_width(c: char) -> int {
    encode_scalar(c as u32).len() as int
}

/// `buf` with the bytes of `bytes` written from the position `at` on.
pub open spec fn written(buf: Seq<u8>, at: int, bytes: Seq<u8>) -> Seq<u8> {
    Seq::new(
        buf.len(),
        |i: int| if at <= i < at + bytes.len() { bytes[i - at] } else { buf[i] },
    )
}

/// `buf` with the `count` bytes from `from` on copied to the position `to`.
pub open spec fn moved(buf: Seq<u8>, from: int, to: int, count: int) -> Seq<u8> {
    Seq::new(buf.len(), |i: int| if to <= i < to + count { buf[from + i - to] } else { buf[i] })
}

/// A string of at most `N` bytes, stored in a buffer of `N` bytes.
pub struct StaticString<const N: usize> {
    buf: Vec<u8>,
    length: usize,
}

impl<const N: usize> StaticString<N> {
    /// The whole buffer, beyond the end of the string too.
    pub closed spec fn buffer(&self) -> Seq<u8> {
        self.buf@
    }

    /// The length of the string in bytes.
    pub closed spec fn spec_len(&self) -> nat {
        self.length as nat
    }

    /// The bytes of the string.
    pub open spec fn content(&self) -> Seq<u8> {
        self.buffer().subrange(0, self.spec_len() as int)
    }

    /// The buffer holds `N` bytes, and the string fits into it.
    pub closed spec fn wf(&self) -> bool {
        self.buf@.len() == N && self.length <= N
    }

    /// An empty string.
    pub fn new() -> (r: Self)
        ensures
            r.wf(),
            r.content() == Seq::<u8>::empty(),
    {
        StaticString { buf: vec![0u8; N], length: 0 }
    }

    /// A string that holds `s`, if `s` fits.
    pub fn try_from_str(s: &str) -> (r: Result<Self, CapacityError>)
        ensures
            s.spec_bytes().len() > N ==> r is Err,
            s.spec_bytes().len() <= N ==> (r matches Ok(string) && string.wf() && string.content()
                == s.spec_bytes()),
    {
        let bytes = s.as_bytes();
        if bytes.len() > N {
            return Err(CapacityError);
        }
        let mut buf = vec![0u8; N];
        let mut i: usize = 0;
        while i < bytes.len()
            invariant
                bytes@.len() <= N,
                buf@.len() == N,
                i <= bytes@.len(),
                forall|k: int| 0 <= k < i ==> buf@[k] == bytes@[k],
            decreases bytes@.len() - i,
        {
            buf.set(i, bytes[i]);
            i += 1;
        }
        let r = StaticString { buf, length: bytes.len() };
        assert(r.content() =~= bytes@);
        Ok(r)
    }

    /// The length of the string in bytes.
    pub fn len(&self) -> (r: usize)
        ensures
            r == self.spec_len(),
    {
        self.length
    }

    /// The number of bytes the string can hold.
    pub fn capacity(&self) -> (r: usize)
        ensures
            r == N,
    {
        N
    }

    /// The bytes of the string.
    pub fn as_bytes(&self) -> (r: &[u8])
        requires
            self.wf(),
        ensures
            r@ == self.content(),
    {
        vstd::slice::slice_subrange(self.buf.as_slice(), 0, self.length)
    }

    /// The string, whose bytes must be valid UTF-8.
    pub fn as_str(&self) -> (r: &str)
        requires
            self.wf(),
            valid_utf8(self.content()),
        ensures
            r.spec_bytes() == self.content(),
    {
        let bytes = self.as_bytes();
        str_from_utf8(bytes).unwrap()
    }

    /// Copies the bytes from `from` to the end of the string to the position
    /// `to`, which is not before `from`; the length stays as it was.
    pub fn shift_right(&mut self, from: usize, to: usize)
        requires
            old(self).wf(),
            from <= to,
            from <= old(self).spec_len(),
            to + old(self).spec_len() - from <= N,
        ensures
            final(self).wf(),
            final(self).spec_len() == old(self).spec_len(),
            final(self).buffer() == moved(
                old(self).buffer(),
                from as int,
                to as int,
                old(self).spec_len() - from,
            ),
    {
        self.copy_within(from, to);
    }

    /// Copies the bytes from `from` to the end of the string to the position
    /// `to`, which is not after `from`; the length stays as it was.
    pub fn shift_left(&mut self, from: usize, to: usize)
        requires
            old(self).wf(),
            to <= from <= old(self).spec_len(),
        ensures
            final(self).wf(),
            final(self).spec_len() == old(self).spec_len(),
            final(self).buffer() == moved(
                old(self).buffer(),
                from as int,
                to as int,
                old(self).spec_len() - from,
            ),
    {
        self.copy_within(from, to);
    }

    /// Copies the bytes from `from` to the end of the string to `to`.
    fn copy_within(&mut self, from: usize, to: usize)
        requires
            old(self).wf(),
            from <= old(self).spec_len(),
            to + old(self).spec_len() - from <= N,
        ensures
            final(self).wf(),
            final(self).spec_len() == old(self).spec_len(),
            final(self).buffer() == moved(
                old(self).buffer(),
                from as int,
                to as int,
                old(self).spec_len() - from,
            ),
    {
        let count = self.length - from;
        let source = vstd::slice::slice_to_vec(
            vstd::slice::slice_subrange(self.buf.as_slice(), from, self.length),
        );
        let ghost start = self.buf@;
        let mut k: usize = 0;
        while k < count
            invariant
                from + count <= start.len(),
                source@.len() == count,
                source@ == start.subrange(from as int, from + count),
                self.buf@.len() == start.len(),
                start.len() == N,
                self.length == from + count,
                to + count <= N,
                k <= count,
                forall|i: int|
                    0 <= i < start.len() ==> #[trigger] self.buf@[i] == if to <= i < to + k {
                        start[from + i - to]
                    } else {
                        start[i]
                    },
            decreases count - k,
        {
            self.buf.set(to + k, source[k]);
            k += 1;
        }
        assert(self.buf@ =~= moved(start, from as int, to as int, count as int));
    }

    /// Writes `value` at `index` of the buffer.
    fn write_byte(&mut self, index: usize, value: u8)
        requires
            old(self).wf(),
            index < N,
        ensures
            final(self).wf(),
            final(self).spec_len() == old(self).spec_len(),
            final(self).buffer() == old(self).buffer().update(index as int, value),
    {
        self.buf.set(index, value);
    }

    /// Sets the length of the string to `new_len` bytes of the buffer.
    pub fn set_len(&mut self, new_len: usize)
        requires
            old(self).wf(),
            new_len <= N,
        ensures
            final(self).wf(),
            final(self).spec_len() == new_len,
            final(self).buffer() == old(self).buffer(),
    {
        self.length = new_len;
    }

    /// Fails with [StringError::NotCharBoundary] if `index` is not a character
    /// boundary of the string.
    pub fn is_char_boundary(&self, index: usize) -> (r: Result<(), StringError>)
        requires
            self.wf(),
            valid_utf8(self.content()),
        ensures
            r == (if is_char_boundary(self.content(), index as int) {
                Ok(())
            } else {
                Err(StringError::NotCharBoundary)
            }),
    {
        let s = self.as_str();
        if str_is_char_boundary(s, index) {
            Ok(())
        } else {
            Err(StringError::NotCharBoundary)
        }
    }
}

impl<const N: usize> Default for StaticString<N> {
    fn default() -> (r: Self)
        ensures
            r.wf(),
            r.content() == Seq::<u8>::empty(),
    {
        StaticString::new()
    }
}

/// Writes the UTF-8 encoding of `character` into the buffer of `string` from
/// `index` on, and lengthens the string by the width of that encoding.
pub fn encode_char_utf8_unchecked<const N: usize>(
    string: &mut StaticString<N>,
    character: char,
    index: usize,
)
    requires
        old(string).wf(),
        index + utf8_width(character) <= N,
        old(string).spec_len() + utf8_width(character) <= N,
    ensures
        final(string).wf(),
        final(string).spec_len() == old(string).spec_len() + utf8_width(character),
        final(string).buffer() == written(
            old(string).buffer(),
            index as int,
            encode_scalar(character as u32),
        ),
{
    let code = character as u32;
    let ghost start = string.buffer();
    let ghost enc = encode_scalar(code);
    let len = string.len();
    if code < MAX_ONE_B {
        let a = code as u8;
        assert(a == (code & 0x7Fu32) as u8) by (bit_vector)
            requires
                code < 0x80u32,
                a == code as u8,
        ;
        string.write_byte(index, a);
        string.set_len(len + 1);
    } else if code < MAX_TWO_B {
        let bytes = encode_utf8_raw(code, 2);
        string.write_byte(index, bytes[0]);
        string.write_byte(index + 1, bytes[1]);
        string.set_len(len + 2);
    } else if code < MAX_THREE_B {
        let bytes = encode_utf8_raw(code, 3);
        string.write_byte(index, bytes[0]);
        string.write_byte(index + 1, bytes[1]);
        string.write_byte(index + 2, bytes[2]);
        string.set_len(len + 3);
    } else {
        let bytes = encode_utf8_raw(code, 4);
        string.write_byte(index, bytes[0]);
        string.write_byte(index + 1, bytes[1]);
        string.write_byte(index + 2, bytes[2]);
        string.write_byte(index + 3, bytes[3]);
        string.set_len(len + 4);
    }
    assert(string.buffer() =~= written(start, index as int, enc));
}

} // verus!
