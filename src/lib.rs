//! Reader for chunked game-data archives: a directory of tagged chunks,
//! decoders for the asset-index chunks, and on-demand materialisation of
//! rasters and audio blobs.

pub mod cursor;
pub mod error;
pub mod chunk;
pub mod directory;
pub mod raster;
pub mod archive;
pub mod materialize;

pub use archive::{prepare_bytes, DataWin, DataWinReady};
pub use error::Error;
