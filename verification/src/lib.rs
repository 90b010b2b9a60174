//! Verified core of a VNC server that reads the screen from the kernel's display buffers.

pub mod frame_diff;
pub mod kms;
pub mod laws;
pub mod video;
pub mod encode;
pub mod transport;
pub mod capture_laws;
pub mod capture_loop;
pub mod config;
pub mod pipeline;
pub mod pipeline_steps;
pub mod devices;
pub mod permissions;
pub mod text;
pub mod input;
