//! The allocation engine shared by both arena types: a chain of chunks, the
//! bump pointer into the last one, and the arena's identity token.
use crate::chunk::{chunk_layout, storage_fits, ChunkMemory};
use crate::options::{chunk_size_of, positions_of, ArenaOptions, ChunkSize, SupportsPositions};
use std::marker::PhantomData;
use std::sync::Arc;
use vstd::prelude::*;

verus! {

/// The items of a chain of chunks, chunk after chunk, each in slot order.
pub open spec fn flatten<T>(chunks: Seq<ChunkMemory<T>>) -> Seq<T>
    decreases chunks.len(),
{
    if chunks.len() == 0 {
        Seq::empty()
    } else {
        flatten(chunks.drop_last()) + chunks.last()@
    }
}

/// The place of slot `index` of chunk `chunk` in allocation order.
pub open spec fn slot_pos<O: ArenaOptions>(chunk: usize, index: usize) -> int {
    chunk as int * chunk_size_of::<O>() + index as int
}

/// A handle to an allocated item: its chunk and its slot in that chunk.
#[derive(PartialEq, Eq, Structural, Clone, Copy, Debug)]
pub struct ItemRef {
    pub chunk: usize,
    pub index: usize,
}

/// Relies on `Arc::ptr_eq`: whether two tokens are clones of one allocation.
#[verifier::external_body]
fn same_token(a: &Arc<()>, b: &Arc<()>) -> (r: bool) {
    Arc::ptr_eq(a, b)
}

/// Whether a position that carries token `old` may be used with an arena
/// whose token is `new`. A position taken before its arena allocated carries
/// no token and fits any arena; one that carries a token never fits an arena
/// that has none; otherwise the two tokens must be one allocation.
pub fn token_fits(old: &Option<Arc<()>>, new: &Option<Arc<()>>) -> (r: bool)
    ensures
        old.is_none() ==> r,
        old.is_some() && new.is_none() ==> !r,
{
    match (old, new) {
        (Some(old), Some(new)) => same_token(old, new),
        (Some(_), None) => false,
        (None, _) => true,
    }
}

/// The length of a chain whose chunks hold `size` items each, except
/// possibly the last.
proof fn lemma_flatten_len<T>(chunks: Seq<ChunkMemory<T>>, size: nat)
    requires
        chunks.len() > 0,
        forall|k: int| 0 <= k < chunks.len() - 1 ==> (#[trigger] chunks[k]@).len() == size,
    ensures
        flatten(chunks).len() == (chunks.len() - 1) * size + chunks.last()@.len(),
    decreases chunks.len(),
{
    let n = chunks.len() as int;
    let init = chunks.drop_last();
    if n == 1 {
        assert(flatten(init) == Seq::<T>::empty());
    } else {
        assert forall|k: int| 0 <= k < init.len() - 1 implies (#[trigger] init[k]@).len() == size by {
            assert(init[k] == chunks[k]);
        }
        lemma_flatten_len(init, size);
        assert(init.last() == chunks[n - 2]);
        assert((n - 2) * size + size == (n - 1) * size) by (nonlinear_arith);
    }
}

/// In such a chain, slot `i` of chunk `c` holds item `c * size + i`.
proof fn lemma_flatten_slot<T>(chunks: Seq<ChunkMemory<T>>, size: nat, c: int, i: int)
    requires
        chunks.len() > 0,
        forall|k: int| 0 <= k < chunks.len() - 1 ==> (#[trigger] chunks[k]@).len() == size,
        0 <= c < chunks.len(),
        0 <= i < chunks[c]@.len(),
    ensures
        flatten(chunks)[c * size + i] == chunks[c]@[i],
    decreases chunks.len(),
{
    let n = chunks.len() as int;
    let init = chunks.drop_last();
    if n == 1 {
        assert(flatten(init) == Seq::<T>::empty());
        assert(c == 0);
    } else {
        assert forall|k: int| 0 <= k < init.len() - 1 implies (#[trigger] init[k]@).len() == size by {
            assert(init[k] == chunks[k]);
        }
        lemma_flatten_len(init, size);
        assert(init.last() == chunks[n - 2]);
        assert((n - 2) * size + size == (n - 1) * size) by (nonlinear_arith);
        if c < n - 1 {
            assert(init[c] == chunks[c]);
            lemma_flatten_slot(init, size, c, i);
            assert(c * size + i < (n - 1) * size) by (nonlinear_arith)
                requires
                    c < n - 1,
                    i < size,
            ;
        } else {
            assert(c * size == (n - 1) * size);
        }
    }
}

/// A position `c * size + i` with `i < size`, below `(n - 1) * size + t`
/// where `0 < t <= size`, lies in chunk `c < n`, and below `t` if `c` is
/// the last chunk.
proof fn lemma_slot_bounds(c: int, i: int, n: int, size: int, t: int)
    requires
        0 <= c,
        0 <= i < size,
        n > 0,
        0 < t <= size,
        c * size + i < (n - 1) * size + t,
    ensures
        c < n,
        c == n - 1 ==> i < t,
{
    if c >= n {
        assert(c * size >= n * size) by (nonlinear_arith)
            requires
                c >= n,
                size > 0,
        ;
        assert(n * size == (n - 1) * size + size) by (nonlinear_arith);
    }
    if c == n - 1 {
        assert(c * size == (n - 1) * size);
    }
}

/// Replacing item `i` of chunk `c` replaces item `c * size + i` of the chain.
proof fn lemma_flatten_update<T>(chunks: Seq<ChunkMemory<T>>, size: nat, c: int, i: int)
    requires
        chunks.len() > 0,
        forall|k: int| 0 <= k < chunks.len() - 1 ==> (#[trigger] chunks[k]@).len() == size,
        0 <= c < chunks.len(),
        0 <= i < chunks[c]@.len(),
    ensures
        forall|x: ChunkMemory<T>|
            x@ == chunks[c]@.update(i, x@[i]) ==> #[trigger] flatten(chunks.update(c, x)) == flatten(
                chunks,
            ).update(c * size + i, x@[i]),
    decreases chunks.len(),
{
    let n = chunks.len() as int;
    let init = chunks.drop_last();
    assert forall|x: ChunkMemory<T>|
        x@ == chunks[c]@.update(i, x@[i]) implies #[trigger] flatten(chunks.update(c, x)) == flatten(
            chunks,
        ).update(c * size + i, x@[i]) by {
        let v = x@[i];
        let upd = chunks.update(c, x);
        if n == 1 {
            assert(flatten(init) == Seq::<T>::empty());
            assert(upd.drop_last().len() == 0);
            assert(flatten(upd.drop_last()) == Seq::<T>::empty());
            assert(c == 0);
            assert(upd.last() == x);
            assert(flatten(upd) == flatten(upd.drop_last()) + x@);
            assert(flatten(upd) == x@);
            assert(flatten(chunks) == flatten(init) + chunks[0]@);
            assert(flatten(chunks) == chunks[0]@);
            assert(c * size + i == i);
            assert(flatten(upd) =~= flatten(chunks).update(c * size + i, v));
        } else {
            assert forall|k: int| 0 <= k < init.len() - 1 implies (#[trigger] init[k]@).len() == size by {
                assert(init[k] == chunks[k]);
            }
            lemma_flatten_len(init, size);
            assert(init.last() == chunks[n - 2]);
            assert((n - 2) * size + size == (n - 1) * size) by (nonlinear_arith);
            if c < n - 1 {
                assert(init[c] == chunks[c]);
                lemma_flatten_update(init, size, c, i);
                assert(upd.drop_last() == init.update(c, x));
                assert(upd.last() == chunks.last());
                assert(flatten(init.update(c, x)) == flatten(init).update(c * size + i, v));
                assert(flatten(upd) == flatten(init.update(c, x)) + chunks.last()@);
                assert(flatten(chunks) == flatten(init) + chunks.last()@);
                assert(c * size + i < (n - 1) * size) by (nonlinear_arith)
                    requires
                        c < n - 1,
                        i < size,
                ;
                assert(flatten(upd) =~= flatten(chunks).update(c * size + i, v));
            } else {
                assert(c * size == (n - 1) * size);
                assert(upd.drop_last() == init);
                assert(upd.last() == x);
                assert(flatten(upd) == flatten(init) + x@);
                assert(flatten(chunks) == flatten(init) + chunks.last()@);
                assert(flatten(upd) =~= flatten(chunks).update(c * size + i, v));
            }
        }
    }
}

/// The engine of an arena with options `O`.
pub struct ArenaInner<T, O: ArenaOptions> {
    chunks: Vec<ChunkMemory<T>>,
    tail_len: usize,
    len: usize,
    token: Option<Arc<()>>,
    options: PhantomData<O>,
}

impl<T, O: ArenaOptions> View for ArenaInner<T, O> {
    type V = Seq<T>;

    /// The items, in allocation order.
    closed spec fn view(&self) -> Seq<T> {
        flatten(self.chunks@)
    }
}

impl<T, O: ArenaOptions> ArenaInner<T, O> {
    /// The chain is well formed: every chunk but the last is full, the last
    /// holds `tail_len` items, each chunk links to the one after it, and the
    /// identity token exists exactly while positions are enabled and the
    /// arena holds items.
    pub closed spec fn wf(&self) -> bool {
        let n = self.chunks@.len();
        let size = chunk_size_of::<O>();
        &&& n == 0 ==> self.tail_len == size
        &&& n > 0 ==> 0 < self.tail_len <= size && self.chunks@[n - 1]@.len() == self.tail_len
        &&& forall|c: int| 0 <= c < n - 1 ==> (#[trigger] self.chunks@[c]@).len() == size
        &&& forall|c: int|
            0 <= c < n ==> (#[trigger] self.chunks@[c]).link() == if c + 1 < n {
                Some((c + 1) as usize)
            } else {
                None
            }
        &&& self.len == flatten(self.chunks@).len()
        &&& n == 0 <==> self.len == 0
        &&& self.token.is_some() <==> (positions_of::<O>() && self.len > 0)
        &&& chunk_size_of::<O>() <= usize::MAX
    }

    /// The number of chunks allocated since the arena was created or last
    /// released.
    pub closed spec fn chunk_count_spec(&self) -> nat {
        self.chunks@.len()
    }

    /// The identity token.
    pub closed spec fn token_spec(&self) -> Option<Arc<()>> {
        self.token
    }

    /// Whether `r` names an allocated item.
    pub open spec fn holds(&self, r: ItemRef) -> bool {
        r.index < chunk_size_of::<O>() && slot_pos::<O>(r.chunk, r.index) < self@.len()
    }

    /// Whether an iteration may stand at `(chunk, index)`: at the start, or
    /// after a slot, at most one past the last item.
    pub open spec fn cursor_ok(&self, chunk: Option<usize>, index: usize) -> bool {
        match chunk {
            None => index == 0,
            Some(c) => index <= chunk_size_of::<O>() && slot_pos::<O>(c, index) <= self@.len(),
        }
    }

    /// How many items lie before the cursor `(chunk, index)`.
    pub open spec fn cursor_pos(chunk: Option<usize>, index: usize) -> int {
        match chunk {
            None => 0,
            Some(c) => slot_pos::<O>(c, index),
        }
    }

    proof fn lemma_view_len(&self)
        requires
            self.wf(),
        ensures
            self@.len() == self.len,
            self.chunks@.len() > 0 ==> self@.len() == (self.chunks@.len() - 1) * chunk_size_of::<O>()
                + self.tail_len,
    {
        if self.chunks@.len() > 0 {
            lemma_flatten_len(self.chunks@, chunk_size_of::<O>());
        }
    }

    /// Where the item at `(c, i)` lies in the chain.
    proof fn lemma_slot(&self, c: usize, i: usize)
        requires
            self.wf(),
            self.holds(ItemRef { chunk: c, index: i }),
        ensures
            c < self.chunks@.len(),
            i < self.chunks@[c as int]@.len(),
            self@[slot_pos::<O>(c, i)] == self.chunks@[c as int]@[i as int],
    {
        let n = self.chunks@.len() as int;
        let size = chunk_size_of::<O>() as int;
        self.lemma_view_len();
        lemma_slot_bounds(c as int, i as int, n, size, self.tail_len as int);
        lemma_flatten_slot(self.chunks@, chunk_size_of::<O>(), c as int, i as int);
    }

    /// With `n` chunks of size `size` and `len` items, `n` is `len / size`
    /// rounded up.
    pub proof fn lemma_chunk_count(&self)
        requires
            self.wf(),
            chunk_size_of::<O>() > 0,
        ensures
            self.chunk_count_spec() == (self@.len() + chunk_size_of::<O>() - 1) as int / chunk_size_of::<O>() as int,
    {
        self.lemma_view_len();
        let n = self.chunks@.len() as int;
        let size = chunk_size_of::<O>() as int;
        let len = self@.len() as int;
        if n > 0 {
            let t = self.tail_len as int;
            assert(len + size - 1 == n * size + (t - 1)) by (nonlinear_arith)
                requires
                    len == (n - 1) * size + t,
            ;
            vstd::arithmetic::div_mod::lemma_fundamental_div_mod_converse(len + size - 1, size, n, t - 1);
        } else {
            vstd::arithmetic::div_mod::lemma_fundamental_div_mod_converse(size - 1, size, 0, size - 1);
        }
    }

    fn chunk_size() -> (r: usize)
        ensures
            r == chunk_size_of::<O>(),
    {
        <O::ChunkSize as ChunkSize>::chunk_size()
    }

    /// An empty arena. Allocates nothing.
    pub fn new() -> (r: Self)
        ensures
            r.wf(),
            r@ == Seq::<T>::empty(),
            r.chunk_count_spec() == 0,
            r.token_spec() is None,
    {
        ArenaInner {
            chunks: Vec::new(),
            tail_len: <O::ChunkSize as ChunkSize>::chunk_size(),
            len: 0,
            token: None,
            options: PhantomData,
        }
    }

    /// The number of items allocated.
    pub fn len(&self) -> (r: usize)
        requires
            self.wf(),
        ensures
            r == self@.len(),
    {
        proof {
            self.lemma_view_len();
        }
        self.len
    }

    /// The number of chunks allocated.
    pub fn chunk_count(&self) -> (r: usize)
        ensures
            r == self.chunk_count_spec(),
    {
        self.chunks.len()
    }

    /// A copy of the identity token.
    pub fn token(&self) -> (r: Option<Arc<()>>)
        requires
            self.wf(),
        ensures
            r.is_some() == self.token_spec().is_some(),
            r.is_some() <==> (positions_of::<O>() && self@.len() > 0),
    {
        proof {
            self.lemma_view_len();
        }
        match &self.token {
            Some(t) => Some(t.clone()),
            None => None,
        }
    }

    /// The identity token.
    pub fn token_ref(&self) -> (r: &Option<Arc<()>>)
        ensures
            *r == self.token_spec(),
    {
        &self.token
    }

    /// Creates the identity token if positions are enabled and there is none.
    fn init_token(&mut self)
        ensures
            final(self).chunks == old(self).chunks,
            final(self).tail_len == old(self).tail_len,
            final(self).len == old(self).len,
            old(self).token.is_some() ==> final(self).token == old(self).token,
            final(self).token.is_some() <==> (old(self).token.is_some()
                || positions_of::<O>()),
    {
        if <O::SupportsPositions as SupportsPositions>::supports_positions() && self.token.is_none() {
            self.token = Some(Arc::new(()));
        }
    }

    /// Writes `value` into the next free slot of the last chunk.
    fn write_tail(&mut self, value: T) -> (r: ItemRef)
        requires
            old(self).wf(),
            old(self).chunks@.len() > 0,
            old(self).tail_len < chunk_size_of::<O>(),
            old(self)@.len() < usize::MAX,
        ensures
            final(self).wf(),
            final(self)@ == old(self)@.push(value),
            final(self).chunks@.len() == old(self).chunks@.len(),
            final(self).token == old(self).token,
            final(self).holds(r),
            slot_pos::<O>(r.chunk, r.index) == old(self)@.len(),
    {
        proof {
            self.lemma_view_len();
        }
        let last = self.chunks.len() - 1;
        let index = self.tail_len;
        let ghost before = self.chunks@;
        self.chunks[last].push(value);
        self.tail_len = index + 1;
        self.len = self.len + 1;
        proof {
            let after = self.chunks@;
            assert(after.drop_last() == before.drop_last());
            assert(forall|c: int| 0 <= c < after.len() - 1 ==> after[c] == before[c]);
            assert(flatten(after) == flatten(before) + seq![value]) by {
                assert(flatten(after) == flatten(before.drop_last()) + before.last()@.push(value));
                assert(before.last()@.push(value) == before.last()@ + seq![value]);
            }
        }
        let r = ItemRef { chunk: last, index };
        proof {
            self.lemma_view_len();
            assert(slot_pos::<O>(last, index) == (last as int) * chunk_size_of::<O>() + index);
        }
        r
    }

    /// Links `chunk` after the last chunk and writes `value` into its first
    /// slot.
    fn append_chunk(&mut self, chunk: ChunkMemory<T>, value: T) -> (r: ItemRef)
        requires
            old(self).wf(),
            old(self).tail_len == chunk_size_of::<O>(),
            chunk_size_of::<O>() > 0,
            chunk@ == Seq::<T>::empty(),
            chunk.link() is None,
            old(self)@.len() < usize::MAX,
        ensures
            final(self).wf(),
            final(self)@ == old(self)@.push(value),
            final(self).chunks@.len() == old(self).chunks@.len() + 1,
            old(self).token.is_some() ==> final(self).token == old(self).token,
            final(self).holds(r),
            slot_pos::<O>(r.chunk, r.index) == old(self)@.len(),
    {
        proof {
            self.lemma_view_len();
        }
        let mut chunk = chunk;
        chunk.push(value);
        let n = self.chunks.len();
        let ghost before = self.chunks@;
        if n > 0 {
            self.chunks[n - 1].set_next(Some(n));
        }
        let ghost linked = self.chunks@;
        self.chunks.push(chunk);
        self.tail_len = 1;
        self.len = self.len + 1;
        self.init_token();
        proof {
            let after = self.chunks@;
            assert(after.drop_last() == linked);
            assert(forall|c: int| 0 <= c < n ==> (#[trigger] linked[c])@ == before[c]@);
            assert(flatten(linked) == flatten(before)) by {
                if n > 0 {
                    assert(linked.drop_last() == before.drop_last());
                }
            }
            assert(flatten(after) == flatten(before) + seq![value]);
            if n > 0 {
                assert(before.last()@.len() == chunk_size_of::<O>());
            }
        }
        let r = ItemRef { chunk: n, index: 0 };
        proof {
            self.lemma_view_len();
            if n > 0 {
                assert(old(self)@.len() == (n - 1) * chunk_size_of::<O>() + chunk_size_of::<O>());
                assert((n - 1) * chunk_size_of::<O>() + chunk_size_of::<O>() == n * chunk_size_of::<O>())
                    by (nonlinear_arith);
            }
        }
        r
    }

    /// With `size` items to a chunk, the last chunk has a free slot exactly
    /// when the number of items is not a multiple of `size`.
    proof fn lemma_tail_space(&self)
        requires
            self.wf(),
            chunk_size_of::<O>() > 0,
        ensures
            (self.tail_len < chunk_size_of::<O>()) <==> (self@.len() % chunk_size_of::<O>() != 0),
            self.tail_len < chunk_size_of::<O>() ==> self.chunks@.len() > 0,
    {
        self.lemma_view_len();
        let n = self.chunks@.len() as int;
        let size = chunk_size_of::<O>() as int;
        let t = self.tail_len as int;
        if n > 0 {
            if t < size {
                vstd::arithmetic::div_mod::lemma_fundamental_div_mod_converse(self@.len() as int, size, n - 1, t);
            } else {
                assert((n - 1) * size + size == n * size) by (nonlinear_arith);
                vstd::arithmetic::div_mod::lemma_fundamental_div_mod_converse(self@.len() as int, size, n, 0);
            }
        } else {
            vstd::arithmetic::div_mod::lemma_fundamental_div_mod_converse(0, size, 0, 0);
        }
    }

    /// Allocates `value` in the arena and returns its handle. Aborts if the
    /// allocator cannot provide a new chunk.
    pub fn allocate(&mut self, value: T) -> (r: ItemRef)
        requires
            old(self).wf(),
            chunk_size_of::<O>() > 0,
            storage_fits::<T>(chunk_size_of::<O>()),
            old(self)@.len() < usize::MAX,
        ensures
            final(self).wf(),
            final(self)@ == old(self)@.push(value),
            final(self).holds(r),
            slot_pos::<O>(r.chunk, r.index) == old(self)@.len(),
            final(self).chunk_count_spec() == old(self).chunk_count_spec() + if old(self)@.len()
                % chunk_size_of::<O>() == 0 {
                1int
            } else {
                0int
            },
            final(self).token_spec().is_some() == positions_of::<O>(),
            old(self).token_spec().is_some() ==> final(self).token_spec() == old(self).token_spec(),
    {
        proof {
            self.lemma_tail_space();
        }
        let size = Self::chunk_size();
        if self.tail_len < size {
            self.write_tail(value)
        } else {
            self.append_chunk(ChunkMemory::new(size), value)
        }
    }

    /// Like [`Self::allocate`], but returns `None`, and leaves the arena as it
    /// was, where a new chunk is needed and cannot be had.
    pub fn try_alloc(&mut self, value: T) -> (r: Option<ItemRef>)
        requires
            old(self).wf(),
            chunk_size_of::<O>() > 0,
            old(self)@.len() < usize::MAX,
        ensures
            final(self).wf(),
            r matches Some(h) ==> {
                &&& final(self)@ == old(self)@.push(value)
                &&& final(self).holds(h)
                &&& slot_pos::<O>(h.chunk, h.index) == old(self)@.len()
                &&& final(self).chunk_count_spec() == old(self).chunk_count_spec() + if old(
                    self,
                )@.len() % chunk_size_of::<O>() == 0 {
                    1int
                } else {
                    0int
                }
                &&& final(self).token_spec().is_some() == positions_of::<O>()
            },
            r is None ==> final(self)@ == old(self)@ && final(self).chunk_count_spec()
                == old(self).chunk_count_spec() && final(self).token_spec() == old(self).token_spec(),
            old(self)@.len() % chunk_size_of::<O>() != 0 ==> r is Some,
            old(self)@.len() % chunk_size_of::<O>() == 0 && chunk_layout::<T>(
                chunk_size_of::<O>(),
            ) is None ==> r is None,
            old(self).token_spec().is_some() ==> final(self).token_spec() == old(self).token_spec(),
    {
        proof {
            self.lemma_tail_space();
        }
        let size = Self::chunk_size();
        if self.tail_len < size {
            Some(self.write_tail(value))
        } else {
            match ChunkMemory::try_new(size) {
                Some(chunk) => Some(self.append_chunk(chunk, value)),
                None => None,
            }
        }
    }

    /// The item that `r` names.
    pub fn get(&self, r: ItemRef) -> (item: &T)
        requires
            self.wf(),
            self.holds(r),
        ensures
            *item == self@[slot_pos::<O>(r.chunk, r.index)],
    {
        proof {
            self.lemma_slot(r.chunk, r.index);
        }
        self.chunks[r.chunk].get(r.index)
    }

    /// The item that `r` names, mutably.
    pub fn get_mut(&mut self, r: ItemRef) -> (item: &mut T)
        requires
            old(self).wf(),
            old(self).holds(r),
        ensures
            *item == old(self)@[slot_pos::<O>(r.chunk, r.index)],
            final(self)@ == old(self)@.update(slot_pos::<O>(r.chunk, r.index), *final(item)),
            final(self).wf(),
            final(self).chunk_count_spec() == old(self).chunk_count_spec(),
            final(self).token_spec() == old(self).token_spec(),
    {
        proof {
            self.lemma_slot(r.chunk, r.index);
            lemma_flatten_update(self.chunks@, chunk_size_of::<O>(), r.chunk as int, r.index as int);
        }
        self.chunks[r.chunk].get_mut(r.index)
    }

    /// Destroys every item, chunk after chunk and each chunk in slot order,
    /// frees the chunks and forgets the identity token. Releasing an empty
    /// arena does nothing.
    pub fn release(&mut self)
        requires
            old(self).wf(),
        ensures
            final(self).wf(),
            final(self)@ == Seq::<T>::empty(),
            final(self).chunk_count_spec() == 0,
            final(self).token_spec() is None,
    {
        let mut chunks: Vec<ChunkMemory<T>> = Vec::new();
        std::mem::swap(&mut self.chunks, &mut chunks);
        self.tail_len = Self::chunk_size();
        self.len = 0;
        self.token = None;
        // `chunks` goes out of scope here: its items are dropped chunk by
        // chunk from the head, then each chunk's storage is freed.
    }

    /// The slot holding the item at the cursor `(chunk, index)`, following
    /// the link to the next chunk where the cursor stands at the end of a
    /// full chunk; `None` at the end of the arena.
    pub fn advance(&self, chunk: Option<usize>, index: usize) -> (r: Option<ItemRef>)
        requires
            self.wf(),
            self.cursor_ok(chunk, index),
        ensures
            Self::cursor_pos(chunk, index) < self@.len() <==> r is Some,
            chunk_size_of::<O>() <= usize::MAX,
            r matches Some(h) ==> self.holds(h) && slot_pos::<O>(h.chunk, h.index) == Self::cursor_pos(
                chunk,
                index,
            ),
    {
        proof {
            self.lemma_view_len();
        }
        let size = Self::chunk_size();
        match chunk {
            None => {
                if self.len == 0 {
                    None
                } else {
                    proof {
                        assert(slot_pos::<O>(0, 0) == 0);
                    }
                    Some(ItemRef { chunk: 0, index: 0 })
                }
            },
            Some(c) => {
                proof {
                    assert(c * size <= c * size + index) by (nonlinear_arith);
                }
                let pos = c * size + index;
                if pos >= self.len {
                    return None;
                }
                if index < size {
                    return Some(ItemRef { chunk: c, index });
                }
                proof {
                    let n = self.chunks@.len() as int;
                    assert((c + 1) * size == c * size + size) by (nonlinear_arith);
                    lemma_slot_bounds((c + 1) as int, 0, n, size as int, self.tail_len as int);
                    assert(self.chunks@[c as int].link() == Some((c + 1) as usize));
                }
                // The cursor is past the last slot of a full chunk: the item
                // is the first of the chunk that this one links to.
                match self.chunks[c].next() {
                    Some(next) => {
                        proof {
                            assert(self.chunks@.len() == self.chunks.len());
                            assert(next == c + 1);
                        }
                        Some(ItemRef { chunk: next, index: 0 })
                    },
                    None => None,
                }
            },
        }
    }

    /// Whether the arena holds the cursor `(chunk, index)`.
    pub fn cursor_fits(&self, chunk: Option<usize>, index: usize) -> (r: bool)
        requires
            self.wf(),
        ensures
            r == self.cursor_ok(chunk, index),
    {
        proof {
            self.lemma_view_len();
        }
        let size = Self::chunk_size();
        match chunk {
            None => index == 0,
            Some(c) => {
                if index > size {
                    return false;
                }
                match c.checked_mul(size) {
                    None => {
                        proof {
                            assert(c * size <= c * size + index) by (nonlinear_arith);
                        }
                        false
                    },
                    Some(start) => match start.checked_add(index) {
                        None => false,
                        Some(pos) => pos <= self.len,
                    },
                }
            },
        }
    }

    /// The chunks, head first.
    pub fn into_chunks(self) -> (r: Vec<ChunkMemory<T>>)
        requires
            self.wf(),
        ensures
            flatten(r@) == self@,
    {
        self.chunks
    }
}

} // verus!
