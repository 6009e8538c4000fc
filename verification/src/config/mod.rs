//! What the server needs to know of a tablet to stream its screen.

pub mod device;
pub mod version;
