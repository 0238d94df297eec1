//! Parametric sphere meshes at multiple levels of detail.
//!
//! The library owns the two pieces of this system that have actual design in
//! them: assembling a triangulated, flat-shaded sphere mesh from a grid of
//! sample points (`mesh`), and deciding on which frames each level-of-detail
//! tier is re-emitted (`cadence`). Coordinate values are carried as the raw
//! bit patterns of 32-bit floats (`vec3`), which keeps the assembly exact and
//! bit-for-bit deterministic; the trigonometric sampling of the sphere surface
//! and the forwarding of frames to a visualization sink live outside the
//! library.

pub mod cadence;
pub mod mesh;
pub mod vec3;

pub use vec3::Vec3Bits;
