//! What the presentation layer works with from frame to frame.
pub mod render;
