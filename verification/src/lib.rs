//! Protocol core of a cross-chain token locker.
//!
//! A locker burns or locks tokens on its own chain and asks a messenger to have
//! the same amount minted on another chain; in the other direction it mints
//! what an authenticated message from a permitted remote sender asks for.
//! This crate holds the message body codec, the routing and permission
//! registries, the delivery policy store, the owner's access control and the
//! two transfer flows. The ledger and the messenger are outside
//! collaborators: the flows hand back the call to make and take the
//! collaborator's reply as a value.

pub mod access;
pub mod account;
pub mod codec;
pub mod error;
pub mod hexstr;
pub mod laws;
pub mod locker;
pub mod message;
pub mod model;
pub mod payload;
pub mod registry;
pub mod sqos;
