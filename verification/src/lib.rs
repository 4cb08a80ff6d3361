//! Thumbnail pipeline of an image browser: which files of a folder selection
//! are images, how one of them becomes a thumbnail, and which thumbnails of
//! which selection are on show.

pub mod batch;
pub mod codec;
pub mod collector;
pub mod error;
pub mod geometry;
pub mod laws;
pub mod worker;
