//! Typed rejections and notification records of the state transitions.

use vstd::prelude::*;

verus! {

/// Why a transition was rejected. Every error aborts the transition before
/// any entity, ownership or genealogy write is applied.
#[derive(Clone, Copy, PartialEq, Eq, Structural, Debug)]
pub enum Error {
    /// The ID space is exhausted: the counter reached the maximum
    /// representable value.
    CountOverflow,
    /// The named entity does not exist.
    EntityNotFound,
    /// The caller does not own the entity it tried to act on.
    NotOwner,
    /// A transfer named the current owner as the recipient.
    SelfTransfer,
    /// Breeding named the same entity as both parents.
    IdenticalParents,
    /// The fixed stake could not be reserved against the caller's account.
    InsufficientStake,
}

/// The structured record a successful transition hands to the runtime's
/// notification sink.
#[derive(Clone, Copy, PartialEq, Eq, Structural, Debug)]
pub enum Event {
    /// `Created(account, id)`: `account` created entity `id`.
    Created(u64, u32),
    /// `Transferred(from, to, id)`: `from` gave entity `id` to `to`.
    Transferred(u64, u64, u32),
    /// `Bred(account, idA, idB, newId)`: `account` bred `idA` with `idB`,
    /// producing `newId`.
    Bred(u64, u32, u32, u32),
}

} // verus!
