//! Loom: the structural core of a retained mode GUI layout engine.
//!
//! The widget tree, preorder numbering, the draw order of the renderer and the
//! hit test search live here with their contracts. The tree is generic over
//! its style and rectangle payloads, so everything in this crate reasons about
//! structure and never about the numeric lengths themselves.

pub mod event;
pub mod geometry;
pub mod render;
pub mod style;
pub mod widget;
