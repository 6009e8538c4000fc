//! Verified core of the reView screen-streaming tool for reMarkable tablets.

pub mod auth;
pub mod config;
pub mod frame;
pub mod options;
pub mod process;
pub mod text;
pub mod version;
