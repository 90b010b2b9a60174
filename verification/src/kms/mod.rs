//! Capture from the kernel's display buffers.

pub mod fourcc;
pub mod pixel_format;
pub mod capture_steps;
pub mod cpu_capture;
pub mod dmabuf;
pub mod outputs;
