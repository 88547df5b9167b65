//! A vector with a fixed capacity and a string stored in such a vector.

use vstd::prelude::*;

use core::marker::PhantomData;
use vstd::string::StringSliceAdditionalSpecFns;

pub mod string;

verus! {

/// A vector that holds at most `N` items; `L` is the type the length is
/// stored as.
pub struct StaticVec<T, const N: usize, L> {
    data: Vec<T>,
    _length_type: PhantomData<L>,
}

impl<T, const N: usize, L> StaticVec<T, N, L> {
    /// The items of the vector.
    pub closed spec fn view(&self) -> Seq<T> {
        self.data@
    }

    /// The vector holds no more than its capacity.
    pub closed spec fn wf(&self) -> bool {
        self.data@.len() <= N
    }

    /// An empty vector.
    pub fn new() -> (r: Self)
        ensures
            r.wf(),
            r.view() == Seq::<T>::empty(),
    {
        StaticVec { data: Vec::new(), _length_type: PhantomData }
    }

    /// The number of items.
    pub fn len(&self) -> (r: usize)
        ensures
            r == self.view().len(),
    {
        self.data.len()
    }

    /// The number of items the vector can hold.
    pub fn capacity(&self) -> (r: usize)
        ensures
            r == N,
    {
        N
    }

    /// The number of items that can still be added.
    pub fn remaining_capacity(&self) -> (r: usize)
        requires
            self.wf(),
        ensures
            r == N - self.view().len(),
    {
        N - self.data.len()
    }

    /// Whether the vector holds no item.
    pub fn is_empty(&self) -> (r: bool)
        ensures
            r == (self.view().len() == 0),
    {
        self.data.len() == 0
    }

    /// Whether the vector holds as many items as it can.
    pub fn is_full(&self) -> (r: bool)
        requires
            self.wf(),
        ensures
            r == (self.view().len() == N),
    {
        self.data.len() == N
    }

    /// The items as a slice.
    pub fn as_slice(&self) -> (r: &[T])
        ensures
            r@ == self.view(),
    {
        self.data.as_slice()
    }

    /// Appends `value`, or hands it back if the vector is full.
    pub fn try_push(&mut self, value: T) -> (r: Result<(), T>)
        requires
            old(self).wf(),
        ensures
            final(self).wf(),
            old(self).view().len() < N ==> r is Ok && final(self).view() == old(self).view().push(
                value,
            ),
            old(self).view().len() >= N ==> r == Err::<(), T>(value) && final(self).view() == old(
                self,
            ).view(),
    {
        if self.data.len() >= N {
            return Err(value);
        }
        self.data.push(value);
        Ok(())
    }

    /// Appends all items of `other`, or as many as there is room for; the
    /// items that do not fit are dropped.
    pub fn extend<const N2: usize, L2>(&mut self, other: StaticVec<T, N2, L2>)
        requires
            old(self).wf(),
        ensures
            final(self).wf(),
            final(self).view() == old(self).view() + other.view().take(
                spec_added_length(old(self).view().len(), other.view().len(), N as nat),
            ),
    {
        self.extend_ex(other.data);
    }

    /// Appends the items of `items` in order, as many as there is room for;
    /// the items after that point are dropped.
    pub fn extend_ex(&mut self, items: Vec<T>)
        requires
            old(self).wf(),
        ensures
            final(self).wf(),
            final(self).view() == old(self).view() + items@.take(
                spec_added_length(old(self).view().len(), items@.len(), N as nat),
            ),
    {
        let room = N - self.data.len();
        let mut items = items;
        let count = if items.len() < room {
            items.len()
        } else {
            room
        };
        items.truncate(count);
        self.data.append(&mut items);
    }

    /// A vector of the items of `items`, as many as it can hold; the items
    /// after that point are dropped.
    pub fn from_iter_ex(items: Vec<T>) -> (r: Self)
        ensures
            r.wf(),
            r.view() == items@.take(spec_added_length(0, items@.len(), N as nat)),
    {
        let mut r = Self::new();
        r.extend_ex(items);
        proof {
            assert(Seq::<T>::empty() + items@.take(spec_added_length(0, items@.len(), N as nat))
                =~= items@.take(spec_added_length(0, items@.len(), N as nat)));
        }
        r
    }

    /// The item at `index`, which must be less than the length.
    pub fn get(&self, index: usize) -> (r: &T)
        requires
            index < self.view().len(),
        ensures
            *r == self.view()[index as int],
    {
        &self.data[index]
    }
}

/// The number of items that fit after `length` items, of `added` items, into a
/// vector with capacity `capacity`.
pub open spec fn spec_added_length(length: nat, added: nat, capacity: nat) -> int {
    if added < capacity - length {
        added as int
    } else {
        capacity - length
    }
}

impl<T: Copy, const N: usize, L> StaticVec<T, N, L> {
    /// Appends the items of `values`, or as many as there is room for.
    pub fn extend_from_slice(&mut self, values: &[T])
        requires
            old(self).wf(),
        ensures
            final(self).wf(),
            final(self).view() == old(self).view() + values@.take(
                spec_added_length(old(self).view().len(), values@.len(), N as nat),
            ),
    {
        let room = N - self.data.len();
        let count = if values.len() < room {
            values.len()
        } else {
            room
        };
        let ghost start = self.data@;
        let mut i: usize = 0;
        while i < count
            invariant
                count <= values@.len(),
                start.len() + count <= N,
                i <= count,
                self.data@ == start + values@.take(i as int),
            decreases count - i,
        {
            self.data.push(values[i]);
            proof {
                assert(values@.take(i + 1) =~= values@.take(i as int).push(values@[i as int]));
            }
            i += 1;
        }
    }
}

/// The error of writing text into a [StaticVec] of bytes that has no room for
/// it.
#[derive(Debug, Clone, Copy, PartialEq, Eq, Structural)]
pub struct WriteError;

impl<const N: usize, L> StaticVec<u8, N, L> {
    /// Appends the bytes of `s` if all of them fit; otherwise fails and
    /// leaves the vector as it was.
    pub fn write_str(&mut self, s: &str) -> (r: Result<(), WriteError>)
        requires
            old(self).wf(),
        ensures
            final(self).wf(),
            old(self).view().len() + s.spec_bytes().len() <= N ==> r is Ok && final(self).view()
                == old(self).view() + s.spec_bytes(),
            old(self).view().len() + s.spec_bytes().len() > N ==> r == Err::<(), WriteError>(
                WriteError,
            ) && final(self).view() == old(self).view(),
    {
        let bytes = s.as_bytes();
        if N - self.data.len() < bytes.len() {
            return Err(WriteError);
        }
        self.extend_from_slice(bytes);
        proof {
            assert(bytes@.take(bytes@.len() as int) =~= bytes@);
        }
        Ok(())
    }
}

} // verus!
