//! Dense integer matrices with shape-checked algebra, and a discrete-time
//! linear state-space simulator built on them.

pub mod matrix;
pub mod system;
pub mod laws;
