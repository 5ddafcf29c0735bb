//! Verified core of the CORD pallets: the MTYPE registry, the weight
//! functions of the utility pallet, and the identity data model with its
//! byte encoding and test-runtime helpers.

pub mod primitives;
pub mod utils;
pub mod mtype;
pub mod weights;
pub mod data;
pub mod identity;
pub mod test_runtime;
