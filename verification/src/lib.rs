//! Rewrites the calling-convention marker of a Rust declaration.
//!
//! A declaration is given as source text together with the arguments of an
//! `abi` directive. The directive either names the ABI outright or lists an
//! ABI per target platform; the rewriter finds the `extern` marker of the
//! declaration and replaces it, or inserts one where the declaration has none.
//! Everything outside the marker is carried through byte for byte.

pub mod classify;
pub mod declaration;
pub mod directive;
pub mod laws;
pub mod marker;
pub mod rewriter;
pub mod syntax;
pub mod target;
pub mod text;

pub use rewriter::abi;
