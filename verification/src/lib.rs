//! Verified core of the tools that unpack, repack and convert kfc archives.

pub mod content_map;
pub mod convert;
pub mod debug_names;
pub mod error;
pub mod extract;
pub mod filter;
pub mod game_dir;
pub mod image_file;
pub mod impact;
pub mod import;
pub mod jobs;
pub mod levels;
pub mod metadata;
pub mod names;
pub mod pixel_format;
pub mod records;
pub mod repack;
pub mod scan;
pub mod text;
pub mod types;
pub mod unpack;
pub mod value;
pub mod wrapper;
