//! Folder scanning, metadata assembly and collision-safe copying for an image browser.
//!
//! The filesystem itself is read by the host application; this library holds the
//! decisions: which entries are images, how a creation time is chosen and formatted,
//! which records a scan returns, and whether a copy may go ahead.

mod text;
pub mod classify;
pub mod path;
pub mod timestamp;
pub mod scan;
pub mod metadata;
pub mod encode;
pub mod transfer;

pub use classify::is_image_file;
pub use encode::image_as_base64;
pub use metadata::{get_image_metadata, ImageMetadata};
pub use scan::{list_filenames_in_folder, list_images_in_folder, list_subfolders, ImageFile};
