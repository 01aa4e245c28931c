//! A verified ledger module for unique digital collectibles ("kitties").
//!
//! Each entity carries an immutable 16-byte genetic code and is identified by
//! a dense, monotonically increasing integer ID. The library is the pure
//! state-transition core: creation, ownership transfer, and breeding, together
//! with the genealogy bookkeeping (parents, children, siblings, partners).
//! The surrounding runtime supplies randomness, stake reservation against a
//! balance ledger, origin authentication, and event delivery; their outcomes
//! enter the transitions as plain values.

pub mod events;
pub mod genes;
pub mod ops;
pub mod state;

pub use events::Error;
pub use events::Event;
pub use genes::Kitty;
pub use state::Module;
