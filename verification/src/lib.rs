//! An ownership registry for collectible kitties: every kitty has one owner,
//! and both the set of all kitties and every owner's holdings stay enumerable
//! in constant time per mutation.

pub mod enumeration;
pub mod host;
pub mod kitty;
pub mod laws;
pub mod primitives;
pub mod registry;
pub mod state;
pub mod store;

pub use host::Trait;
pub use kitty::{Error, Event, Kitty};
pub use primitives::{AccountId, Balance, H256};
pub use registry::Module;
