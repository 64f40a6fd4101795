//! The decisions of a DRM backend that is driven by udev: which devices it keeps, which CRTC
//! drives which connector, what a frame shows, and what follows when it fails.
//!
//! Nothing here talks to a device. Each step takes a reply of the outside world and says what
//! is to be done next.

pub mod connectors;
pub mod device_laws;
pub mod handler;
pub mod paths;
pub mod pointer;
pub mod render;
pub mod run;
pub mod run_laws;
pub mod session;
pub mod task;
