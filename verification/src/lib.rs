//! Guest-side marshaling core for a sandboxed module that exchanges byte
//! buffers with a hosting runtime across a numeric-only interface.
//!
//! The library models the guest's linear memory and the ownership discipline
//! of the boundary: an arena allocator hands out disjoint regions
//! ([`arena`]), a boundary codec folds a (pointer, length) pair into one
//! 64-bit handle ([`boundary`]), buffer marshaling copies a borrowed span in
//! and hands an owned buffer off ([`marshal`]), and a hex codec carries the
//! payload ([`codec`]). The exported entry points of the guest are composed
//! and verified in [`exports`].

pub mod arena;
pub mod boundary;
pub mod codec;
pub mod exports;
pub mod marshal;

pub use codec::decode;
pub use codec::encode;
