//! A small FTP server library: line codec, command parser, path sandbox,
//! and the per-connection session state machine, with verified contracts.

pub mod cmd;
pub mod codec;
pub mod config;
pub mod digits;
pub mod error;
pub mod ftp;
pub mod listing;
pub mod paths;
pub mod session;
