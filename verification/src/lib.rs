//! Development tools for applications built on an entity-component host
//! engine: a free-fly debug camera with runtime switching between multiple
//! cameras, a procedurally coloured prototype material for blockout meshes,
//! and a transient popup layer.
//!
//! The camera focus and switching protocol is the heart of this crate. It is
//! written over an explicit arena of camera records keyed by stable integer
//! handles, so that every decision the protocol makes is a function of plain
//! values and is verified. The embedding application owns the frame loop,
//! input devices, window cursor and rendering; it feeds events in and carries
//! the returned actions out.

pub mod debug_camera;
pub mod prototype_material;
pub mod ui;
