//! Picture scaling.

pub mod cell_graph;
pub mod cell_laws;
pub mod node_map;
pub mod optimize;
pub mod optimize_laws;
pub mod picture;
pub mod pipeline;
pub mod raster;
pub mod raster_laws;
pub mod single;
pub mod vectorize;
pub mod vectorize_laws;
pub mod vectorize_faces;
pub mod vectorize_scanline;
pub mod wgpu_vectorize;
pub mod wgpu_scale;
pub mod xbr;
pub mod xbr_laws;
pub mod xbrz;
pub mod xbrz_laws;
pub mod xbr_hybrid;
