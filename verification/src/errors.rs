//! Error taxonomy of the renderer core.
//!
//! Startup-phase errors (instance, device, allocator, initial swapchain)
//! abort initialization; per-frame errors degrade to skipping a frame and
//! are modelled by the frame loop's state machine instead.

use vstd::prelude::*;

verus! {

/// Failure while creating the library connection (instance level).
#[derive(Clone, Copy, Debug, PartialEq, Eq, Structural)]
pub enum InstanceCreationError {
    /// A required instance extension is not supported.
    ExtensionNotPresent,
}

/// Failure while opening the logical device connection.
#[derive(Clone, Copy, Debug, PartialEq, Eq, Structural)]
pub enum DeviceCreationError {
    /// A required device extension is not supported.
    ExtensionNotPresent,
    /// A required device feature is not supported.
    FeatureNotPresent,
    /// No queue family supports both compute and transfer operations.
    NoQueueFamilyAvailable,
}

/// No enumerated physical device satisfies the required capability set.
#[derive(Clone, Copy, Debug, PartialEq, Eq, Structural)]
pub struct NoSuitableDeviceError;

/// Failure while building an allocator against a device's heap layout.
#[derive(Clone, Copy, Debug, PartialEq, Eq, Structural)]
pub enum AllocatorCreationError {
    /// The block-size policy has no entries to build an arena from.
    EmptyPolicy,
    /// A block-size policy entry names a heap the device does not have.
    HeapOutOfRange,
    /// A block-size policy entry asks for an empty block.
    ZeroBlockSize,
}

/// An allocation request the strategy cannot satisfy.
#[derive(Clone, Copy, Debug, PartialEq, Eq, Structural)]
pub enum OutOfMemoryError {
    /// No free region of the arena is large enough.
    OutOfMemory,
    /// The request exceeds the strategy's fixed block size.
    BlockSizeExceeded,
}

/// Failure while creating or recreating the swapchain.
#[derive(Clone, Copy, Debug, PartialEq, Eq, Structural)]
pub enum SwapchainError {
    /// The surface reports no supported image formats.
    NoSurfaceFormats,
    /// The requested extent is degenerate (zero pixels in a dimension).
    ExtentOutOfBounds,
}

/// Failure while rebuilding the per-frame resources after a swapchain
/// (re)creation.
#[derive(Clone, Copy, Debug, PartialEq, Eq, Structural)]
pub enum BuildError {
    /// The presentable-image list does not match the swapchain's image count.
    ImageCountMismatch,
    /// A presentable image belongs to another swapchain generation.
    GenerationMismatch,
}

/// Errors that can occur while the application initializes.
#[derive(Debug)]
pub enum AppInitError {
    OSNotSupported(String),
    LogInitError(String),
    WindowInitError(String),
    RendererInitError(String),
}

/// Errors of the logging subsystem.
#[derive(Clone, Copy, Debug, PartialEq, Eq, Structural)]
pub enum LogError {
    InitializationFailed,
    NotInitialized,
    GuardLocked,
}

/// Errors that can occur while the renderer initializes.
#[derive(Debug)]
pub enum RendererInitError {
    LibraryInitError(String),
    InstanceExtNotSupported,
    InstanceInitError(String),
}

} // verus!
