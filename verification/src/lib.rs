//! Application-boundary error taxonomy and workspace-creation entities.
//!
//! The crate has three parts:
//! - [`errors`]: a closed set of numeric error codes with fixed descriptions,
//!   a `UserError` value pairing a code with a message, a single-use builder
//!   that resolves the final message, and conversions from foreign error
//!   sources onto the local codes.
//! - [`workspace`]: the wire request and validated parameter shapes for
//!   creating a workspace, with the fail-fast field validation between them,
//!   and the `Workspace` / `RepeatedWorkspace` output entities.
//! - [`codec`]: a binary codec over the stable field-number layout of these
//!   types, proved to round-trip.

pub mod codec;
pub mod errors;
pub mod workspace;
