//! Traversals that tell each item where it stands: its index and whether it
//! is the first or the last one, or which item follows it.

use vstd::prelude::*;

verus! {

/// Extension functions for sequences of items.
pub trait IterExt<T>: Sized {
    /// The items, in order.
    spec fn items(self) -> Seq<T>;

    /// A traversal that provides the position of each item as well as flags
    /// for the first and last item.
    fn with_positions(self) -> (r: WithPositionIter<T>)
        ensures
            r.remaining() == self.items(),
            r.position() == 0,
    ;

    /// A traversal that provides each item together with a copy of the next
    /// item.
    fn peeked(self) -> (r: Peeked<T>)
        where
            T: Copy,
        ensures
            r.remaining() == self.items(),
    ;
}

impl<T> IterExt<T> for Vec<T> {
    open spec fn items(self) -> Seq<T> {
        self@
    }

    fn with_positions(self) -> (r: WithPositionIter<T>) {
        let len = self.len();
        assert(len == self@.len());
        WithPositionIter { items: self, is_first: true, index: 0 }
    }

    fn peeked(self) -> (r: Peeked<T>) where T: Copy {
        Peeked { items: self }
    }
}

/// A traversal that provides the position as well as flags for the first and
/// last item, see [IterExt::with_positions].
pub struct WithPositionIter<T> {
    items: Vec<T>,
    is_first: bool,
    index: usize,
}

/// The item returned by [WithPositionIter]
#[derive(Debug, Clone, Copy, PartialEq, Eq)]
pub struct PositionInfo<I> {
    /// the index of the item
    pub index: usize,
    /// true if the item is the first item
    pub first: bool,
    /// true if the item is the last item
    pub last: bool,
    /// the item
    pub item: I,
}

impl<T> WithPositionIter<T> {
    /// The items that are still to come.
    pub closed spec fn remaining(self) -> Seq<T> {
        self.items@
    }

    /// The index of the next item.
    pub closed spec fn position(self) -> nat {
        self.index as nat
    }

    #[verifier::type_invariant]
    spec fn well_formed(self) -> bool {
        &&& self.is_first == (self.index == 0)
        &&& self.index + self.items@.len() <= usize::MAX
    }

    /// The next item with its position.
    pub fn next(&mut self) -> (r: Option<PositionInfo<T>>)
        ensures
            old(self).remaining().len() == 0 ==> (r is None) && final(self).remaining() == old(self).remaining()
                && final(self).position() == old(self).position(),
            old(self).remaining().len() > 0 ==> r == Some(
                PositionInfo {
                    index: old(self).position() as usize,
                    first: old(self).position() == 0,
                    last: old(self).remaining().len() == 1,
                    item: old(self).remaining()[0],
                },
            ) && final(self).remaining() == old(self).remaining().drop_first()
                && final(self).position() == old(self).position() + 1,
    {
        proof {
            use_type_invariant(&*self);
        }
        if self.items.len() == 0 {
            return None;
        }
        let mut items: Vec<T> = Vec::new();
        std::mem::swap(&mut items, &mut self.items);
        let item = items.remove(0);
        let first = self.is_first;
        let index = self.index;
        let last = items.len() == 0;
        proof {
            assert(items@ =~= old(self).items@.drop_first());
        }
        *self = WithPositionIter { items, is_first: false, index: index + 1 };
        Some(PositionInfo { index, first, last, item })
    }
}

/// A traversal that returns each item and a copy of the item after it, see
/// [IterExt::peeked].
pub struct Peeked<T> {
    items: Vec<T>,
}

impl<T: Copy> Peeked<T> {
    /// The items that are still to come.
    pub closed spec fn remaining(self) -> Seq<T> {
        self.items@
    }

    /// The next item and a copy of the item after it.
    pub fn next(&mut self) -> (r: Option<(T, Option<T>)>)
        ensures
            old(self).remaining().len() == 0 ==> (r is None) && final(self).remaining() == old(self).remaining(),
            old(self).remaining().len() > 0 ==> r == Some(
                (
                    old(self).remaining()[0],
                    if old(self).remaining().len() > 1 {
                        Some(old(self).remaining()[1])
                    } else {
                        None
                    },
                ),
            ) && final(self).remaining() == old(self).remaining().drop_first(),
    {
        if self.items.len() == 0 {
            return None;
        }
        let current = self.items.remove(0);
        let next = if self.items.len() > 0 {
            Some(self.items[0])
        } else {
            None
        };
        proof {
            assert(self.items@ =~= old(self).items@.drop_first());
        }
        Some((current, next))
    }

    /// The number of items that are still to come.
    pub fn len(&self) -> (r: usize)
        ensures
            r == self.remaining().len(),
    {
        self.items.len()
    }
}

} // verus!
