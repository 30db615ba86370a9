//! Core of a directory-watching photo uploader: a deduplicating upload
//! queue, the scheduler that claims queued items and records their
//! outcomes, the filename filter the watcher applies, and the
//! classification rules for the remote gallery service's replies.

pub mod api_client;
pub mod clock;
pub mod config;
pub mod file_watcher;
mod paths;
pub mod upload_manager;
pub mod upload_queue;

pub use paths::file_name_of;
pub use paths::is_image_file;
