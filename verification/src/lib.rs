//! A content-addressed block store and the orchestration that drives an
//! external convergent-encryption codec against it.
//!
//! The store keys every block by a path derived from the block's
//! 32-byte reference: the reference is base32-encoded and the first two
//! and next two symbols become two directory levels, which bounds the
//! fan-out of any one directory. Writes deduplicate by path; reads of an
//! absent path fail with a distinguished not-found error.

pub mod codec;
pub mod encoding;
pub mod paths;
pub mod store;
