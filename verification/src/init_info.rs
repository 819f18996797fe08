//! The capability vocabularies and the default required/preferred sets for
//! instance-level and device-level negotiation.

use vstd::prelude::*;

use crate::capability::{confirm, spec_confirm, CapabilitySet};
use crate::errors::{DeviceCreationError, InstanceCreationError};

verus! {

// Instance-extension vocabulary.
pub const KHR_SURFACE: u64 = 0;

pub const KHR_WIN32_SURFACE: u64 = 1;

pub const KHR_GET_SURFACE_CAPABILITIES2: u64 = 2;

pub const KHR_GET_PHYSICAL_DEVICE_PROPERTIES2: u64 = 3;

// Device-extension vocabulary.
pub const KHR_SWAPCHAIN: u64 = 0;

pub const KHR_DEDICATED_ALLOCATION: u64 = 1;

pub const KHR_DEVICE_GROUP: u64 = 2;

// Device-feature vocabulary.
pub const BUFFER_DEVICE_ADDRESS: u64 = 0;

/// The instance-level negotiation request: required and preferred instance
/// extensions.
#[derive(Clone, Copy, Debug, PartialEq, Eq, Structural)]
pub struct InstanceInitInfo {
    pub required_extensions: CapabilitySet,
    pub preferred_extensions: CapabilitySet,
}

impl InstanceInitInfo {
    /// Negotiates the instance extensions to enable against the supported
    /// set.
    pub fn confirm_extensions(&self, supported_extensions: &CapabilitySet) -> (result: Result<
        CapabilitySet,
        InstanceCreationError,
    >)
        ensures
            result matches Ok(c) ==> spec_confirm(
                self.required_extensions,
                self.preferred_extensions,
                *supported_extensions,
            ) == Ok::<CapabilitySet, crate::capability::CapabilityError>(c),
            result is Ok <==> self.required_extensions.subset_of(*supported_extensions),
            result matches Err(e) ==> e == InstanceCreationError::ExtensionNotPresent,
    {
        match confirm(
            &self.required_extensions,
            &self.preferred_extensions,
            supported_extensions,
        ) {
            Ok(c) => Ok(c),
            Err(_) => Err(InstanceCreationError::ExtensionNotPresent),
        }
    }
}

impl Default for InstanceInitInfo {
    /// The default instance request: a surface, the platform surface
    /// extension and the extended surface-capability query are required;
    /// nothing is merely preferred.
    fn default() -> (r: Self)
        ensures
            forall|i: int|
                #[trigger] r.required_extensions.has(i) <==> i == KHR_SURFACE
                    || i == KHR_WIN32_SURFACE || i == KHR_GET_SURFACE_CAPABILITIES2,
            forall|i: int| !r.preferred_extensions.has(i),
    {
        let mut required_extensions = CapabilitySet::empty();
        required_extensions.enable(KHR_SURFACE);
        required_extensions.enable(KHR_WIN32_SURFACE);
        required_extensions.enable(KHR_GET_SURFACE_CAPABILITIES2);
        let preferred_extensions = CapabilitySet::empty();
        InstanceInitInfo { required_extensions, preferred_extensions }
    }
}

/// The device-level negotiation request: required and preferred device
/// extensions and features.
#[derive(Clone, Copy, Debug, PartialEq, Eq, Structural)]
pub struct DeviceInitInfo {
    pub required_extensions: CapabilitySet,
    pub preferred_extensions: CapabilitySet,
    pub required_features: CapabilitySet,
    pub preferred_features: CapabilitySet,
}

impl DeviceInitInfo {
    /// Negotiates the device extensions to enable against the supported set.
    pub fn confirm_extensions(&self, supported_extensions: &CapabilitySet) -> (result: Result<
        CapabilitySet,
        DeviceCreationError,
    >)
        ensures
            result matches Ok(c) ==> spec_confirm(
                self.required_extensions,
                self.preferred_extensions,
                *supported_extensions,
            ) == Ok::<CapabilitySet, crate::capability::CapabilityError>(c),
            result is Ok <==> self.required_extensions.subset_of(*supported_extensions),
            result matches Err(e) ==> e == DeviceCreationError::ExtensionNotPresent,
    {
        match confirm(
            &self.required_extensions,
            &self.preferred_extensions,
            supported_extensions,
        ) {
            Ok(c) => Ok(c),
            Err(_) => Err(DeviceCreationError::ExtensionNotPresent),
        }
    }

    /// Negotiates the device features to enable against the supported set.
    pub fn confirm_features(&self, supported_features: &CapabilitySet) -> (result: Result<
        CapabilitySet,
        DeviceCreationError,
    >)
        ensures
            result matches Ok(c) ==> spec_confirm(
                self.required_features,
                self.preferred_features,
                *supported_features,
            ) == Ok::<CapabilitySet, crate::capability::CapabilityError>(c),
            result is Ok <==> self.required_features.subset_of(*supported_features),
            result matches Err(e) ==> e == DeviceCreationError::FeatureNotPresent,
    {
        match confirm(&self.required_features, &self.preferred_features, supported_features) {
            Ok(c) => Ok(c),
            Err(_) => Err(DeviceCreationError::FeatureNotPresent),
        }
    }
}

impl Default for DeviceInitInfo {
    /// The default device request: the swapchain extension is required;
    /// dedicated allocation, device groups and buffer device addresses are
    /// preferred.
    fn default() -> (r: Self)
        ensures
            forall|i: int| #[trigger] r.required_extensions.has(i) <==> i == KHR_SWAPCHAIN,
            forall|i: int|
                #[trigger] r.preferred_extensions.has(i) <==> i == KHR_DEDICATED_ALLOCATION || i
                    == KHR_DEVICE_GROUP,
            forall|i: int| !r.required_features.has(i),
            forall|i: int| #[trigger] r.preferred_features.has(i) <==> i == BUFFER_DEVICE_ADDRESS,
    {
        let mut required_extensions = CapabilitySet::empty();
        required_extensions.enable(KHR_SWAPCHAIN);
        let mut preferred_extensions = CapabilitySet::empty();
        preferred_extensions.enable(KHR_DEDICATED_ALLOCATION);
        preferred_extensions.enable(KHR_DEVICE_GROUP);
        let required_features = CapabilitySet::empty();
        let mut preferred_features = CapabilitySet::empty();
        preferred_features.enable(BUFFER_DEVICE_ADDRESS);
        DeviceInitInfo {
            required_extensions,
            preferred_extensions,
            required_features,
            preferred_features,
        }
    }
}

} // verus!
