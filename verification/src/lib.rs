//! Policy resolution and matrix expansion for a layered, declarative
//! build-and-test configuration over a multi-package project tree.
//!
//! The crate resolves which project units are in scope for an invocation,
//! merges layered policy files along the directory hierarchy, expands each
//! resolved policy into the Cartesian product of execution units, and
//! translates every execution unit into the exact argument vector for the
//! external build tool. Running the resulting invocations (and all other
//! I/O) is left to the surrounding application.

pub mod error;
pub mod expand;
pub mod invocation;
pub mod merge;
pub mod plan;
pub mod policy;
pub mod scope;
pub mod strutil;

pub use error::Error;
