//! Keeps a local copy of the music that an account has bought.
//!
//! The library reads the service's pages (`parser`, `records`, `join`),
//! gathers the collection batch by batch (`sync`), says where each item
//! lives on disk and whether it is there already (`file_manager`), picks the
//! encoding to fetch (`format`), and directs the writing of a download so
//! that a file is seen under its final name only when it is whole
//! (`materializer`). What a run of the materializer leaves on disk is
//! proved against a model of the disk (`disk`, `faults`).
//!
//! The library does no input or output of its own: the caller fetches pages,
//! carries out the actions that the materializer asks for, and reports how
//! they went.

pub mod cookies;
pub mod decimal;
pub mod disk;
pub mod downloader;
pub mod error;
pub mod faults;
pub mod file_manager;
pub mod format;
pub mod html;
pub mod join;
pub mod json;
pub mod login;
pub mod materializer;
pub mod parser;
pub mod records;
pub mod size;
pub mod sync;
pub mod text;
pub mod types;
