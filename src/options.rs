//! Arena options, chosen at the type level.
use vstd::prelude::*;

verus! {

/// Represents a [`usize`] at the type level.
pub struct Usize<const N: usize>;

/// Represents a [`bool`] at the type level.
pub struct Bool<const B: bool>;

/// Trait bound on [`ArenaOptions::ChunkSize`]: the number of items a chunk holds.
pub trait ChunkSize {
    spec fn spec_chunk_size() -> nat;

    fn chunk_size() -> (r: usize)
        ensures
            r as nat == Self::spec_chunk_size(),
    ;
}

impl<const N: usize> ChunkSize for Usize<N> {
    open spec fn spec_chunk_size() -> nat {
        N as nat
    }

    fn chunk_size() -> (r: usize) {
        N
    }
}

/// Trait bound on [`ArenaOptions::SupportsPositions`].
pub trait SupportsPositions {
    spec fn spec_supports_positions() -> bool;

    fn supports_positions() -> (r: bool)
        ensures
            r == Self::spec_supports_positions(),
    ;
}

impl<const B: bool> SupportsPositions for Bool<B> {
    open spec fn spec_supports_positions() -> bool {
        B
    }

    fn supports_positions() -> (r: bool) {
        B
    }
}

/// Trait bound on [`ArenaOptions::Mutable`].
pub trait Mutable {
    spec fn spec_mutable() -> bool;
}

impl<const B: bool> Mutable for Bool<B> {
    open spec fn spec_mutable() -> bool {
        B
    }
}

/// Arena options. Implemented by [`TypedOptions`].
pub trait ArenaOptions {
    /// The number of items that each chunk can hold (a [`Usize`]).
    type ChunkSize: ChunkSize;

    /// Whether positions can be taken from iterators and resumed (a [`Bool`]).
    type SupportsPositions: SupportsPositions;

    /// Whether the arena hands out mutable access to its items (a [`Bool`]).
    type Mutable: Mutable;
}

/// Arena options given as types: a [`Usize`] and two [`Bool`]s.
pub struct TypedOptions<C, P, M>(std::marker::PhantomData<(C, P, M)>);

impl<C: ChunkSize, P: SupportsPositions, M: Mutable> ArenaOptions for TypedOptions<C, P, M> {
    type ChunkSize = C;
    type SupportsPositions = P;
    type Mutable = M;
}

/// Options given as constants: chunk size, position support, mutability.
pub type Options<const CHUNK_SIZE: usize, const SUPPORTS_POSITIONS: bool, const MUTABLE: bool> =
    TypedOptions<Usize<CHUNK_SIZE>, Bool<SUPPORTS_POSITIONS>, Bool<MUTABLE>>;

/// The options' chunk size.
pub open spec fn chunk_size_of<O: ArenaOptions>() -> nat {
    <O::ChunkSize as ChunkSize>::spec_chunk_size()
}

/// Whether the options enable positions.
pub open spec fn positions_of<O: ArenaOptions>() -> bool {
    <O::SupportsPositions as SupportsPositions>::spec_supports_positions()
}

} // verus!
