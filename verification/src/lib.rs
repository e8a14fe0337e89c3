//! A sequential model of a symmetric, stackful context-switch primitive.
//!
//! Two execution contexts, each with a stack of its own, hand control to one
//! another; every transfer carries one machine word. The crate fixes where a
//! fresh context's first frame lies in its stack block, and states the transfer
//! sequence of each supported architecture as a step of a small machine, on
//! which the guarantees of the primitive are proved.

pub mod arch;
pub mod layout;
pub mod machine;
pub mod laws;

pub use arch::Arch;
pub use machine::{Machine, RawCrob, Stack};
