//! Single-threaded ownership primitives with machine-checked contracts.
//!
//! - [`cell`]: a slot that is only ever copied out of or overwritten.
//! - [`rc`]: shared ownership by counting the handles to an allocation.
//! - [`refcell`]: a slot whose borrows, shared or exclusive, are checked at
//!   run time.
//! - [`transformer`]: a transformer that computes its value lazily and keeps
//!   it.

pub mod cell;
pub mod rc;
pub mod refcell;
pub mod transformer;
