//! An arena that allocates values of a single type in chunks of a fixed,
//! configurable size, so that every allocation takes non-amortized constant
//! time. Items never move; they are addressed by `(chunk, slot)` handles that
//! stay valid until the arena is released.
//!
//! [`Arena`] drops its items when it is dropped. [`ManuallyDropArena`] leaks
//! them unless [`manually_drop::ManuallyDropArena::drop`] is called, which
//! releases them and leaves the arena ready for reuse.
pub mod arena;
pub mod chunk;
pub mod inner;
pub mod iter;
pub mod laws;
pub mod manually_drop;
pub mod options;

pub use inner::ItemRef;
pub use iter::{IntoIter, Iter, IterMut, Position};
pub use options::{ArenaOptions, Options};
use vstd::prelude::*;

verus! {

/// An [`arena::Arena`] whose options are given as constants.
pub type Arena<T, const CHUNK_SIZE: usize, const SUPPORTS_POSITIONS: bool, const MUTABLE: bool> =
    arena::Arena<T, Options<CHUNK_SIZE, SUPPORTS_POSITIONS, MUTABLE>>;

/// A [`manually_drop::ManuallyDropArena`] whose options are given as
/// constants.
pub type ManuallyDropArena<
    T,
    const CHUNK_SIZE: usize,
    const SUPPORTS_POSITIONS: bool,
    const MUTABLE: bool,
> = manually_drop::ManuallyDropArena<T, Options<CHUNK_SIZE, SUPPORTS_POSITIONS, MUTABLE>>;

} // verus!
