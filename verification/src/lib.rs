//! Verified logic for working with TON smart contracts: account addresses and their text forms,
//! contract images, and the messages that deploy and call contracts.

pub mod address;
pub mod bits;
pub mod cell;
pub mod checksum;
pub mod codec;
pub mod contract;
pub mod error;
pub mod image;
pub mod json;
pub mod laws;
pub mod message;
pub mod settings;
pub mod sextets;
