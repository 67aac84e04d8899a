//! Synchronized, colorized composite frames from multi-channel image time series.
pub mod colorize;
pub mod compose;
pub mod error;
pub mod export;
pub mod loader;
pub mod metadata;
pub mod raster;
pub mod resources;
pub mod sync;
pub mod template;
pub mod text;
