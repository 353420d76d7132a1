//! Resolution of layered encoding options into a conflict-free policy, and
//! derivation of the strict (padding-free, declaration-ordered) binary codec
//! that a struct or an enumeration gets from that policy.
pub mod attr;
pub mod policy;
pub mod plan;
pub mod wire;
pub mod laws;
