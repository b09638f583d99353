//! A recursive ray tracer over a generic scalar.
//!
//! The scene is a set of spheres and point lights over a checkered ground
//! plane. A pinhole camera casts a ray through each pixel; the shader follows
//! it through reflections and refractions and shades what it meets with hard
//! shadows. The frame that comes out can be encoded as RGB or RGBA bytes or
//! as a binary portable pixmap.
//!
//! Every function is generic over its scalar. The contracts say from which
//! scalar operations each result comes, whatever those operations return,
//! and give results as values for scalars whose operators obey their
//! specifications.

pub mod scalar;
pub mod geometry;
pub mod algebra;
pub mod optics;
pub mod sphere;
pub mod scene;
pub mod shading;
pub mod render;
pub mod camera;
pub mod encode;
pub mod repeatable;
