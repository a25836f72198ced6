//! Synchronisation of a local directory tree with an FTP server.

pub mod cli;
pub mod commands;
pub mod download;
pub mod error;
pub mod extension;
pub mod file_transfer;
pub mod ftp;
pub mod gather;
pub mod hash;
pub mod inventory;
pub mod listing;
pub mod local_paths;
pub mod ls;
pub mod order;
pub mod paths;
pub mod platform;
pub mod push;
pub mod remote_hash;
pub mod scope;
pub mod state;
pub mod sync;
pub mod targets;
pub mod text;
pub mod transfer_temp;
pub mod upload;
pub mod walk;
pub mod walk_coverage;
