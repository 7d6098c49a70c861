//! Ethercat master library: the data representation, protocol frames and decision logic of an ethercat master.
use vstd::prelude::*;

pub mod numbers;
pub mod data;
pub mod error;
pub mod rawmaster;
pub mod registers;
pub mod mailbox;
pub mod can;
pub mod mapping;
pub mod sdo;
pub mod clock;
pub mod sii;
pub mod slave;
pub mod synchro;
pub mod ethernet;

pub use crate::data::{PduData, Field, BitField};
pub use crate::error::EthercatError;

verus! {

} // verus!
