//! An autotiling policy for a tiling window compositor: given a snapshot of
//! the window tree and an aspect-ratio threshold, resolve the focused node
//! and its structural parent, and decide which split orientation, if any,
//! to request for the container holding the focused window.

pub mod policy;
pub mod tree;
