//! A library for rendering bitmap images as grids of colored block
//! characters ("textels"): downsampling a source raster onto a fixed
//! width-by-height grid, persisting that grid as nested row records,
//! and laying out the terminal operations that display it.
pub mod art;
pub mod client;
pub mod codec;
pub mod raster;
pub mod record;
pub mod render;
pub mod text;

pub use art::AsciiArt;
pub use art::SampleError;
pub use art::Textel;
pub use art::blank_art;
pub use client::RequestType;
pub use codec::DecodeError;
pub use codec::RowWrapper;
pub use raster::Raster;
pub use raster::RasterError;
pub use raster::Rgb;
pub use raster::raster_from_bytes;
pub use raster::raster_from_parts;
pub use record::Record;
pub use record::Track;
pub use render::RenderOp;
pub use text::max_len;
pub use text::process_search_string;
