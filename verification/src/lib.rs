//! A minimal content-addressable object store in the style of a version
//! control system's plumbing layer: typed byte payloads are framed, hashed,
//! compressed and addressed by the hex digest of their canonical frame, and a
//! repository handle is located by walking parent directories.
//!
//! The library itself performs no file-system access: callers probe the disk
//! and hand in plain values, and receive back the exact bytes and paths to
//! store or the parsed objects that were read.

pub mod cli_parser;
pub mod deflate;
pub mod digits;
pub mod errors;
pub mod file_path;
pub mod git_object;
pub mod hexcode;
pub mod repository;
pub mod sha;
pub mod textutil;
