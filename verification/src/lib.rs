//! Applies the "large address aware" patch to a PE executable image and
//! classifies which distributed build of the executable is present before
//! patching it.
//!
//! All logic works on in-memory byte images of the target file; reading the
//! file from disk, writing it back and creating the on-disk backup copy are
//! left to the caller.

pub mod digest;
pub mod patcher_laa;
pub mod pe;
