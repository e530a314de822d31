//! Integer core of a software rendering pipeline for a procedurally shaded
//! star: the pixel sink and its write rules, sphere mesh topology, primitive
//! assembly, the lattice hash and gradient choice that seed the noise fields,
//! and the vertex references of OBJ face records.

pub mod assembly;
pub mod color;
pub mod framebuffer;
pub mod lattice;
pub mod obj;
pub mod sphere;

pub use color::Color;
pub use framebuffer::Framebuffer;
pub use sphere::create_sphere_indices;
pub use lattice::{corner_hashes, gradient_terms, lattice_hash, Axis, GradientTerms};
pub use assembly::{assemble_triangles, gather_vertices};
pub use obj::{face_vertex_index, FaceIndexError};
