//! A read-only decoder for EROFS filesystem images.
//!
//! The engine in [`filesystem`] opens an image through any random-access byte
//! source, validates its super block, resolves node ids and paths to inodes and
//! maps logical file offsets to physical byte ranges.
pub mod error;
pub mod types;
pub mod image;
pub mod dirent;
pub mod layout;
pub mod filesystem;
pub mod file;
pub mod laws;

pub use error::{Error, ErrorKind};
pub use file::File;
pub use filesystem::EroFS;
pub use image::ReadAt;
