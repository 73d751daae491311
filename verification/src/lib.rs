//! A bounded pool of numbered tokens and the rules by which a minter hands
//! them out.
//!
//! The state of a minter is a [`state::Config`] and a [`pool::MintablePool`];
//! every operation takes the state it works on as an argument and says in its
//! contract how the state after the call relates to the state before it.

pub mod allocation;
pub mod bindings;
pub mod contract;
pub mod error;
pub mod msg;
pub mod pool;
pub mod state;
pub mod text;
