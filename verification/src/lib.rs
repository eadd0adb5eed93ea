//! Serves files, trees and history of a mirrored git repository.
pub mod api;
pub mod clear;
pub mod config;
pub mod decode;
pub mod error;
pub mod git;
pub mod log;
pub mod memo;
pub mod mirror;
pub mod object_id;
pub mod process;
pub mod repo;
pub mod status;
pub mod sync;
pub mod text;
pub mod tree;
pub mod url;
