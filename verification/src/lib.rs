//! Device/swapchain negotiation and resource-lifecycle management for a
//! compute-driven renderer.
//!
//! The crate models the capability negotiation, physical-device selection,
//! swapchain configuration, per-frame resource construction, the memory
//! allocation strategies and the frame loop's state machine over plain
//! data, so that every decision the renderer makes is verified. The
//! platform layer (window, driver, GPU queues) sits outside and feeds
//! these functions with the values it observed.

pub mod allocator;
pub mod builder;
pub mod capability;
pub mod device;
pub mod errors;
pub mod frame_loop;
pub mod init_info;
pub mod input;
pub mod instance;
pub mod logging;
pub mod resources;
pub mod swapchain;
