//! A watch list of externally identified subjects, each classified as rich or
//! poor by comparing a periodically delivered balance against a configured
//! threshold.
//!
//! The crate is the registration, reply-correlation and classification engine
//! of that watch list, with its persisted cells and maps held in a [`State`]
//! value. Every entry point states, as a contract over the mathematical view
//! of the state, what it returns and what it changes.

pub mod classification;
pub mod contract;
pub mod engine;
pub mod error;
pub mod laws;
pub mod msg;
pub mod order;
pub mod registry;
pub mod sorted;
pub mod state;
pub mod wire;

pub use error::ManagerError;
