//! Laws that hold between the functions of the library.

pub mod address;
pub mod contract;
pub mod data;
pub mod image;
pub mod making;
pub mod message;
pub mod outgoing;
pub mod text;
