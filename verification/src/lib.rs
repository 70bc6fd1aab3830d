//! A verified parser for ASCII Wavefront OBJ documents.
//!
//! The parser turns the text of an OBJ file into per-object vertex attribute
//! buffers (positions, normals, texture coordinates), applying the format's
//! reference-number scheme, fan triangulation of polygonal faces, and a
//! configurable leniency policy.  Numeric components are validated against
//! the floating-point grammar and carried through as their source tokens, so
//! the whole pipeline from text to buffers is verified; turning the tokens
//! into machine numbers is left to the consumer of the buffers.

pub mod numbers;
pub mod parser;
pub mod properties;
pub mod state;
pub mod text;

pub use parser::{ObjParseError, ObjParseOptions, ObjParseResult, ObjParser};
pub use state::{ObjGeometry, ObjObject, ObjParseState};
