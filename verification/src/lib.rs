//! The rendering core of an interactive 3D client: a scene graph with
//! derived world transforms, per-mesh instance pools, a camera, lights and
//! the per-frame orchestration that turns them into draw calls.
//!
//! Scalars are carried as IEEE-754 binary32 bit patterns (`u32`). The
//! library stores and moves them and never computes with them; every
//! operation that needs arithmetic on them is handed in by the caller as an
//! implementation of [`math::matrix::Arithmetic`].
pub mod context;
pub mod errors;
pub mod info;
pub mod input;
pub mod math;
pub mod scene;
pub mod version;
