//! Verified core of an input-event remapping daemon.
pub mod text;
pub mod ioctl;
pub mod abi;
pub mod settings;
pub mod config;
pub mod pipeline;
pub mod device;
pub mod dispatch;
