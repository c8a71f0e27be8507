//! A procedural texture generator: a directed graph of computation nodes is
//! reduced to an evaluation order and walked once per output pixel, producing
//! a raster image.  Node outputs live in a small value lattice with a total
//! conversion to a canonical RGBA pixel.
pub mod bitmap;
pub mod coordinate;
pub mod generator;
pub mod input_output_value;
pub mod laws;
pub mod library;
pub mod link;
pub mod node;
pub mod node_kind;
pub mod pixel;
pub mod plane;
pub mod scalar;
