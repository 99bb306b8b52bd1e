//! Fixed-capacity storage blocks and their chaining.
use vstd::layout::{align_of, size_of, valid_layout};
use vstd::prelude::*;

verus! {

/// The link slot of a chunk: the index of the next chunk in the chain.
pub type Link = Option<usize>;

/// Where a chunk's link slot and its item slots lie in one block.
#[derive(PartialEq, Eq, Structural, Clone, Copy, Debug)]
pub struct ChunkLayout {
    /// Bytes in the block.
    pub size: usize,
    /// Alignment of the block.
    pub align: usize,
    /// Offset of the link slot.
    pub link_offset: usize,
    /// Offset of the first item slot.
    pub storage_offset: usize,
}

/// Whether the link slot comes first: its alignment is at least the item's.
pub open spec fn link_first<T>() -> bool {
    align_of::<Link>() >= align_of::<T>()
}

/// The block layout for `capacity` items of type `T` and one link slot: the
/// field with the larger (or equal) alignment sits at offset 0 and the other
/// right after it. `None` where the block's size or alignment cannot form a
/// valid layout.
pub open spec fn chunk_layout<T>(capacity: nat) -> Option<ChunkLayout> {
    let storage = size_of::<T>() * capacity;
    let link = size_of::<Link>();
    let size = link + storage;
    let align = if link_first::<T>() { align_of::<Link>() } else { align_of::<T>() };
    if size <= usize::MAX && valid_layout(size as usize, align as usize) {
        Some(
            ChunkLayout {
                size: size as usize,
                align: align as usize,
                link_offset: if link_first::<T>() { 0 } else { storage as usize },
                storage_offset: if link_first::<T>() { link as usize } else { 0 },
            },
        )
    } else {
        None
    }
}

/// Whether `capacity` items of type `T` fit in one allocation, which holds
/// at most `isize::MAX` bytes.
pub open spec fn storage_fits<T>(capacity: nat) -> bool {
    size_of::<T>() * capacity <= isize::MAX
}

/// One block of storage: up to a fixed number of item slots, filled from the
/// front, and a link to the next block of the chain.
pub struct ChunkMemory<T> {
    items: Vec<T>,
    next: Link,
}

impl<T> View for ChunkMemory<T> {
    type V = Seq<T>;

    /// The items written so far, in slot order.
    closed spec fn view(&self) -> Seq<T> {
        self.items@
    }
}

impl<T> ChunkMemory<T> {
    /// The link slot.
    pub closed spec fn link(&self) -> Link {
        self.next
    }

    fn link_size() -> (r: usize)
        ensures
            r as nat == size_of::<Link>(),
    {
        core::mem::size_of::<Link>()
    }

    fn link_align() -> (r: usize)
        ensures
            r as nat == align_of::<Link>(),
    {
        core::mem::align_of::<Link>()
    }

    fn storage_size(capacity: usize) -> (r: Option<usize>)
        ensures
            r matches Some(s) ==> s as nat == size_of::<T>() * capacity,
            r is None ==> size_of::<T>() * capacity > usize::MAX,
    {
        core::mem::size_of::<T>().checked_mul(capacity)
    }

    fn align() -> (r: usize)
        ensures
            r as nat == if link_first::<T>() { align_of::<Link>() } else { align_of::<T>() },
    {
        let link = Self::link_align();
        let item = core::mem::align_of::<T>();
        if link >= item {
            link
        } else {
            item
        }
    }

    /// The block layout for `capacity` items, by the packing rule of
    /// [`chunk_layout`].
    pub fn layout(capacity: usize) -> (r: Option<ChunkLayout>)
        ensures
            r == chunk_layout::<T>(capacity as nat),
    {
        broadcast use vstd::layout::group_align_properties;

        let storage = match Self::storage_size(capacity) {
            Some(s) => s,
            None => return None,
        };
        let link = Self::link_size();
        let size = match link.checked_add(storage) {
            Some(s) => s,
            None => return None,
        };
        let align = Self::align();
        let max = isize::MAX as usize;
        proof {
            broadcast use vstd::layout::align_nonzero;

            assert(align > 0);
            assert(max % align <= max) by (nonlinear_arith)
                requires
                    align > 0,
            ;
        }
        if size > max - max % align {
            return None;
        }
        let link_first = Self::link_align() >= core::mem::align_of::<T>();
        let (link_offset, storage_offset) = if link_first {
            (0, link)
        } else {
            (storage, 0)
        };
        Some(ChunkLayout { size, align, link_offset, storage_offset })
    }

    /// A chunk able to hold `capacity` items, with no link. Aborts if the
    /// allocator cannot provide the storage.
    pub fn new(capacity: usize) -> (r: Self)
        requires
            storage_fits::<T>(capacity as nat),
        ensures
            r@ == Seq::<T>::empty(),
            r.link() is None,
    {
        ChunkMemory { items: Vec::with_capacity(capacity), next: None }
    }

    /// Like [`Self::new`], but returns `None` where the block has no valid
    /// layout or the allocator cannot provide the storage.
    pub fn try_new(capacity: usize) -> (r: Option<Self>)
        ensures
            chunk_layout::<T>(capacity as nat) is None ==> r is None,
            r matches Some(c) ==> c@ == Seq::<T>::empty() && c.link() is None,
    {
        if Self::layout(capacity).is_none() {
            return None;
        }
        let mut items: Vec<T> = Vec::new();
        match items.try_reserve(capacity) {
            Ok(()) => Some(ChunkMemory { items, next: None }),
            Err(_) => None,
        }
    }

    /// Writes `value` into the first free slot.
    pub fn push(&mut self, value: T)
        ensures
            final(self)@ == old(self)@.push(value),
            final(self).link() == old(self).link(),
    {
        self.items.push(value);
    }

    /// The item in slot `i`.
    pub fn get(&self, i: usize) -> (r: &T)
        requires
            i < self@.len(),
        ensures
            *r == self@[i as int],
    {
        &self.items[i]
    }

    /// The item in slot `i`, mutably.
    pub fn get_mut(&mut self, i: usize) -> (r: &mut T)
        requires
            i < old(self)@.len(),
        ensures
            *r == old(self)@[i as int],
            final(self)@ == old(self)@.update(i as int, *final(r)),
            final(self).link() == old(self).link(),
    {
        &mut self.items[i]
    }

    /// The link slot.
    pub fn next(&self) -> (r: Link)
        ensures
            r == self.link(),
    {
        self.next
    }

    /// Sets the link slot.
    pub fn set_next(&mut self, next: Link)
        ensures
            final(self)@ == old(self)@,
            final(self).link() == next,
    {
        self.next = next;
    }

    /// The items, in slot order.
    pub fn into_items(self) -> (r: Vec<T>)
        ensures
            r@ == self@,
    {
        self.items
    }
}

} // verus!
