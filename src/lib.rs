//! A fixed-size three-dimensional grid of storage slots with verified
//! placement, removal and free-slot enumeration.

pub mod laws;
pub mod store;
