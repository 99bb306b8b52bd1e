//! A typed arena that hands out handles independent of any borrow of it,
//! and leaks its items unless it is released.
use crate::chunk::{chunk_layout, storage_fits};
use crate::inner::{slot_pos, ArenaInner, ItemRef};
use crate::iter::{resume, IntoIter, Iter, IterMut, Position};
use crate::options::{chunk_size_of, positions_of, ArenaOptions, Bool};
use std::mem::ManuallyDrop;
use std::ops::DerefMut;
use vstd::prelude::*;
use vstd::std_specs::manually_drop::ManuallyDropAdditionalFns;

verus! {

/// Relies on `ManuallyDrop`'s `DerefMut`: it hands out the wrapped value
/// itself, and what is written through it is what the wrapper holds.
pub assume_specification<T: ?Sized>[ <ManuallyDrop<T> as DerefMut>::deref_mut ](
    m: &mut ManuallyDrop<T>,
) -> (r: &mut T)
    ensures
        &*r == old(m).view_ref(),
        final(m).view_ref() == &*final(r),
;

/// Like [`Arena`](crate::arena::Arena), but dropping it does not drop its
/// items: they live until [`Self::drop`] releases them, and without that call
/// the arena leaks them.
pub struct ManuallyDropArena<T, O: ArenaOptions> {
    inner: ManuallyDrop<ArenaInner<T, O>>,
}

impl<T, O: ArenaOptions> View for ManuallyDropArena<T, O> {
    type V = Seq<T>;

    /// The items, in allocation order.
    closed spec fn view(&self) -> Seq<T> {
        self.inner@@
    }
}

impl<T, O: ArenaOptions> ManuallyDropArena<T, O> {
    pub closed spec fn wf(&self) -> bool {
        self.inner@.wf()
    }

    /// The number of chunks allocated so far.
    pub closed spec fn chunk_count_spec(&self) -> nat {
        self.inner@.chunk_count_spec()
    }

    /// Whether the arena holds an identity token for its positions.
    pub closed spec fn has_token(&self) -> bool {
        self.inner@.token_spec() is Some
    }

    /// Whether `r` names an item of this arena.
    pub open spec fn holds(&self, r: ItemRef) -> bool {
        r.index < chunk_size_of::<O>() && slot_pos::<O>(r.chunk, r.index) < self@.len()
    }

    /// Whether an iteration may stand at `(chunk, index)`: at the start, or
    /// after a slot, at most one past the last item.
    pub open spec fn cursor_ok(&self, chunk: Option<usize>, index: usize) -> bool {
        match chunk {
            None => index == 0,
            Some(c) => index <= chunk_size_of::<O>() && slot_pos::<O>(c, index) <= self@.len(),
        }
    }

    /// With chunks of `size` items, the arena has allocated `len / size`
    /// chunks, rounded up: none while it is empty.
    pub proof fn lemma_chunk_count(&self)
        requires
            self.wf(),
            chunk_size_of::<O>() > 0,
        ensures
            self.chunk_count_spec() == (self@.len() + chunk_size_of::<O>() - 1) as int
                / chunk_size_of::<O>() as int,
    {
        self.inner@.lemma_chunk_count();
    }

    /// Creates an empty arena. Allocates nothing.
    pub fn new() -> (r: Self)
        ensures
            r.wf(),
            r@ == Seq::<T>::empty(),
            r.chunk_count_spec() == 0,
            !r.has_token(),
    {
        ManuallyDropArena { inner: ManuallyDrop::new(ArenaInner::new()) }
    }

    /// The number of items allocated.
    pub fn len(&self) -> (r: usize)
        requires
            self.wf(),
        ensures
            r == self@.len(),
    {
        self.inner.len()
    }

    /// Whether no item has been allocated.
    pub fn is_empty(&self) -> (r: bool)
        requires
            self.wf(),
        ensures
            r == (self@.len() == 0),
    {
        self.len() == 0
    }

    /// The number of chunks allocated.
    pub fn chunk_count(&self) -> (r: usize)
        ensures
            r == self.chunk_count_spec(),
    {
        self.inner.chunk_count()
    }

    /// Drops every item, chunk after chunk and each chunk in slot order, and
    /// frees the chunks. The arena is then empty and may be used again;
    /// positions taken before no longer fit it. Releasing an empty arena
    /// does nothing.
    pub fn drop(&mut self)
        requires
            old(self).wf(),
        ensures
            final(self).wf(),
            final(self)@ == Seq::<T>::empty(),
            final(self).chunk_count_spec() == 0,
            !final(self).has_token(),
    {
        self.inner.deref_mut().release();
    }

    /// The same as [`Self::drop`], under a name that a `Deref` wrapper of the
    /// arena does not shadow.
    pub fn manually_drop(&mut self)
        requires
            old(self).wf(),
        ensures
            final(self).wf(),
            final(self)@ == Seq::<T>::empty(),
            final(self).chunk_count_spec() == 0,
            !final(self).has_token(),
    {
        self.drop();
    }

    /// Allocates `value` and returns its handle, for shared access. Aborts if
    /// the allocator cannot provide a new chunk.
    pub fn alloc_shared(&mut self, value: T) -> (r: ItemRef)
        requires
            old(self).wf(),
            chunk_size_of::<O>() > 0,
            storage_fits::<T>(chunk_size_of::<O>()),
            old(self)@.len() < usize::MAX,
        ensures
            final(self).wf(),
            final(self)@ == old(self)@.push(value),
            final(self).holds(r),
            slot_pos::<O>(r.chunk, r.index) == old(self)@.len(),
            final(self).chunk_count_spec() == old(self).chunk_count_spec() + if old(self)@.len()
                % chunk_size_of::<O>() == 0 {
                1int
            } else {
                0int
            },
            final(self).has_token() == positions_of::<O>(),
    {
        self.inner.deref_mut().allocate(value)
    }

    /// Like [`Self::alloc_shared`], but returns `None`, and leaves the arena
    /// as it was, where a new chunk is needed and cannot be had.
    pub fn try_alloc_shared(&mut self, value: T) -> (r: Option<ItemRef>)
        requires
            old(self).wf(),
            chunk_size_of::<O>() > 0,
            old(self)@.len() < usize::MAX,
        ensures
            final(self).wf(),
            r matches Some(h) ==> final(self)@ == old(self)@.push(value) && final(self).holds(h)
                && slot_pos::<O>(h.chunk, h.index) == old(self)@.len(),
            r is None ==> final(self)@ == old(self)@ && final(self).chunk_count_spec()
                == old(self).chunk_count_spec(),
            old(self)@.len() % chunk_size_of::<O>() != 0 ==> r is Some,
            old(self)@.len() % chunk_size_of::<O>() == 0 && chunk_layout::<T>(chunk_size_of::<O>())
                is None ==> r is None,
    {
        self.inner.deref_mut().try_alloc(value)
    }

    /// The item that `r` names.
    pub fn get(&self, r: ItemRef) -> (item: &T)
        requires
            self.wf(),
            self.holds(r),
        ensures
            *item == self@[slot_pos::<O>(r.chunk, r.index)],
    {
        self.inner.get(r)
    }

    /// An iterator over the items, in allocation order.
    pub fn iter(&self) -> (r: Iter<'_, T, O>)
        requires
            self.wf(),
        ensures
            r.wf(),
            r.items() == self@,
            r.consumed() == 0,
    {
        Iter::new(&self.inner, (None, 0))
    }

    /// Moves the items out, in allocation order.
    pub fn into_iter(self) -> (r: IntoIter<T, O>)
        requires
            self.wf(),
        ensures
            r.remaining() == self@,
    {
        IntoIter::new(ManuallyDrop::into_inner(self.inner))
    }
}

impl<T, O: ArenaOptions> Default for ManuallyDropArena<T, O> {
    /// An empty arena, as [`Self::new`] makes.
    fn default() -> (r: Self)
        ensures
            r.wf(),
            r@ == Seq::<T>::empty(),
            r.chunk_count_spec() == 0,
    {
        Self::new()
    }
}

impl<T, O: ArenaOptions<Mutable = Bool<true>>> ManuallyDropArena<T, O> {
    /// Allocates `value` and returns its handle, for shared or mutable
    /// access. Aborts if the allocator cannot provide a new chunk.
    pub fn allocate(&mut self, value: T) -> (r: ItemRef)
        requires
            old(self).wf(),
            chunk_size_of::<O>() > 0,
            storage_fits::<T>(chunk_size_of::<O>()),
            old(self)@.len() < usize::MAX,
        ensures
            final(self).wf(),
            final(self)@ == old(self)@.push(value),
            final(self).holds(r),
            slot_pos::<O>(r.chunk, r.index) == old(self)@.len(),
            final(self).chunk_count_spec() == old(self).chunk_count_spec() + if old(self)@.len()
                % chunk_size_of::<O>() == 0 {
                1int
            } else {
                0int
            },
            final(self).has_token() == positions_of::<O>(),
    {
        self.inner.deref_mut().allocate(value)
    }

    /// Like [`Self::allocate`], but returns `None`, and leaves the arena as
    /// it was, where a new chunk is needed and cannot be had.
    pub fn try_alloc(&mut self, value: T) -> (r: Option<ItemRef>)
        requires
            old(self).wf(),
            chunk_size_of::<O>() > 0,
            old(self)@.len() < usize::MAX,
        ensures
            final(self).wf(),
            r matches Some(h) ==> final(self)@ == old(self)@.push(value) && final(self).holds(h)
                && slot_pos::<O>(h.chunk, h.index) == old(self)@.len(),
            r is None ==> final(self)@ == old(self)@ && final(self).chunk_count_spec()
                == old(self).chunk_count_spec(),
            old(self)@.len() % chunk_size_of::<O>() != 0 ==> r is Some,
            old(self)@.len() % chunk_size_of::<O>() == 0 && chunk_layout::<T>(chunk_size_of::<O>())
                is None ==> r is None,
    {
        self.inner.deref_mut().try_alloc(value)
    }

    /// The item that `r` names, mutably.
    pub fn get_mut(&mut self, r: ItemRef) -> (item: &mut T)
        requires
            old(self).wf(),
            old(self).holds(r),
        ensures
            *item == old(self)@[slot_pos::<O>(r.chunk, r.index)],
            final(self)@ == old(self)@.update(slot_pos::<O>(r.chunk, r.index), *final(item)),
            final(self).wf(),
            final(self).chunk_count_spec() == old(self).chunk_count_spec(),
            final(self).has_token() == old(self).has_token(),
    {
        self.inner.deref_mut().get_mut(r)
    }

    /// A mutable iterator over the items, in allocation order.
    pub fn iter_mut(&mut self) -> (r: IterMut<'_, T, O>)
        requires
            old(self).wf(),
        ensures
            r.wf(),
            r.items() == old(self)@,
            r.consumed() == 0,
    {
        IterMut::new(self.inner.deref_mut(), (None, 0))
    }
}

impl<T, O: ArenaOptions<SupportsPositions = Bool<true>>> ManuallyDropArena<T, O> {
    /// An iterator that resumes at `position`; `None` where the position
    /// does not belong to this arena (it came from another arena, or from
    /// this one before it was released).
    pub fn iter_at(&self, position: &Position) -> (r: Option<Iter<'_, T, O>>)
        requires
            self.wf(),
        ensures
            r matches Some(it) ==> it.wf() && it.items() == self@ && it.consumed()
                == ArenaInner::<T, O>::cursor_pos(position.chunk_spec(), position.index_spec()),
            !self.cursor_ok(position.chunk_spec(), position.index_spec()) ==> r is None,
            position.has_token() && !self.has_token() ==> r is None,
            !position.has_token() && self.cursor_ok(position.chunk_spec(), position.index_spec())
                ==> r is Some,
    {
        match resume(&self.inner, position) {
            Some(cursor) => Some(Iter::new(&self.inner, cursor)),
            None => None,
        }
    }
}

impl<T, O: ArenaOptions<SupportsPositions = Bool<true>, Mutable = Bool<true>>> ManuallyDropArena<T, O> {
    /// A mutable iterator that resumes at `position`; `None` where the
    /// position does not belong to this arena.
    pub fn iter_mut_at(&mut self, position: &Position) -> (r: Option<IterMut<'_, T, O>>)
        requires
            old(self).wf(),
        ensures
            r matches Some(it) ==> it.wf() && it.items() == old(self)@ && it.consumed()
                == ArenaInner::<T, O>::cursor_pos(position.chunk_spec(), position.index_spec()),
            !old(self).cursor_ok(position.chunk_spec(), position.index_spec()) ==> r is None,
            position.has_token() && !old(self).has_token() ==> r is None,
            !position.has_token() && old(self).cursor_ok(
                position.chunk_spec(),
                position.index_spec(),
            ) ==> r is Some,
    {
        match resume(&self.inner, position) {
            Some(cursor) => Some(IterMut::new(self.inner.deref_mut(), cursor)),
            None => None,
        }
    }
}

} // verus!
