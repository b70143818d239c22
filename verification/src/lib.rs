//! A host-side loader and invoker for a sandboxed binary module format.
//!
//! The crate parses a module's binary metadata (declared imports and
//! exports), resolves the declared imports against a host capability
//! provider, and validates typed invocations of a named export.  The
//! execution engine itself (compilation, sandboxed execution) is an
//! external collaborator: the library prepares everything the engine
//! needs, and checks everything the engine returns.

pub mod values;
pub mod descriptor;
pub mod parse;
pub mod resolver;
pub mod host;
