//! Execution core of a capability-gated stack machine: stack items, the data
//! stack, control registers, cells and slices, and the two P-256 signature
//! opcodes.

pub mod error;
pub mod bits;
pub mod integer;
pub mod cell;
pub mod crypto;
pub mod stack;
pub mod savelist;
pub mod executor;
pub mod signature_facts;
pub mod params;
