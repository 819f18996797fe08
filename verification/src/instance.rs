//! Instance-level extension control and the library-connection model: which
//! extensions are minimal, preferred, and actually enabled on a connection.

use vstd::prelude::*;

use crate::capability::CapabilitySet;
use crate::errors::RendererInitError;
use crate::init_info::{
    KHR_GET_PHYSICAL_DEVICE_PROPERTIES2, KHR_GET_SURFACE_CAPABILITIES2, KHR_SURFACE,
    KHR_WIN32_SURFACE,
};

verus! {

/// Membership of the minimal instance-extension set for the windows
/// platform path: a presentable surface, the platform surface extension,
/// and the extended surface-capability query.
pub open spec fn min_ext(i: int) -> bool {
    i == KHR_SURFACE || i == KHR_WIN32_SURFACE || i == KHR_GET_SURFACE_CAPABILITIES2
}

/// Membership of the preferred instance-extension set: the extended
/// physical-device property query, useful but not required.
pub open spec fn pref_ext(i: int) -> bool {
    i == KHR_GET_PHYSICAL_DEVICE_PROPERTIES2
}

/// Tracks the instance extensions of a connection: what the library
/// supports on this machine, the minimal set needed to run, the preferred
/// set, their union, and the set actually checked against the supported
/// ones.
#[derive(Clone, Copy, Debug, PartialEq, Eq, Structural)]
pub struct InstanceExtensionsControl {
    pub supported_extensions: CapabilitySet,
    pub minimal_extensions: CapabilitySet,
    pub preferred_extensions: CapabilitySet,
    pub all_extensions: CapabilitySet,
    pub current_extensions: CapabilitySet,
}

/// The result of checking the instance extensions against what the
/// library supports.
pub enum InstExtControlCreateResult {
    /// Every minimal and preferred extension can be enabled.
    Complete(InstanceExtensionsControl),
    /// The minimal set is available but some preferred extensions are not;
    /// the connection still works without them.
    PreferredExtNotSupported(InstanceExtensionsControl),
    /// The minimal set itself is not available; no connection is possible.
    MinExtNotSupported,
}

impl InstanceExtensionsControl {
    /// Checks the minimal extension set for the windows platform path:
    /// fails when any minimal extension is unsupported, otherwise enables
    /// exactly the minimal set.
    pub fn new_windows_minimal(supported_extensions: &CapabilitySet) -> (r:
        InstExtControlCreateResult)
        ensures
            r is MinExtNotSupported <==> !(forall|i: int|
                min_ext(i) ==> #[trigger] supported_extensions.has(i)),
            !(r is PreferredExtNotSupported),
            r matches InstExtControlCreateResult::Complete(c) ==> {
                &&& c.supported_extensions == *supported_extensions
                &&& forall|i: int| #[trigger] c.minimal_extensions.has(i) <==> min_ext(i)
                &&& forall|i: int| !c.preferred_extensions.has(i)
                &&& forall|i: int| #[trigger] c.all_extensions.has(i) <==> min_ext(i)
                &&& forall|i: int| #[trigger] c.current_extensions.has(i) <==> min_ext(i)
            },
    {
        let mut minimal_extensions = CapabilitySet::empty();
        minimal_extensions.enable(KHR_GET_SURFACE_CAPABILITIES2);
        minimal_extensions.enable(KHR_SURFACE);
        minimal_extensions.enable(KHR_WIN32_SURFACE);
        if !supported_extensions.contains(&minimal_extensions) {
            InstExtControlCreateResult::MinExtNotSupported
        } else {
            InstExtControlCreateResult::Complete(
                InstanceExtensionsControl {
                    supported_extensions: *supported_extensions,
                    minimal_extensions,
                    preferred_extensions: CapabilitySet::empty(),
                    all_extensions: minimal_extensions,
                    current_extensions: minimal_extensions,
                },
            )
        }
    }

    /// Checks the full extension request for the windows platform path:
    /// fails when a minimal extension is unsupported; otherwise enables
    /// the minimal set plus whichever preferred extensions are supported,
    /// and reports whether any preferred extension had to be dropped.
    pub fn new_windows(supported_extensions: &CapabilitySet) -> (r: InstExtControlCreateResult)
        ensures
            r is MinExtNotSupported <==> !(forall|i: int|
                min_ext(i) ==> #[trigger] supported_extensions.has(i)),
            r is Complete <==> ((forall|i: int|
                min_ext(i) ==> #[trigger] supported_extensions.has(i)) && (forall|i: int|
                pref_ext(i) ==> #[trigger] supported_extensions.has(i))),
            match r {
                InstExtControlCreateResult::Complete(c) => Self::windows_control_wf(
                    c,
                    *supported_extensions,
                ),
                InstExtControlCreateResult::PreferredExtNotSupported(c)
                    => Self::windows_control_wf(c, *supported_extensions),
                InstExtControlCreateResult::MinExtNotSupported => true,
            },
    {
        let minimal_control = match Self::new_windows_minimal(supported_extensions) {
            InstExtControlCreateResult::Complete(c) => c,
            _ => { return InstExtControlCreateResult::MinExtNotSupported },
        };
        let mut preferred_extensions = CapabilitySet::empty();
        preferred_extensions.enable(KHR_GET_PHYSICAL_DEVICE_PROPERTIES2);
        let checked_extensions = supported_extensions.intersection(&preferred_extensions);
        let all_extensions = minimal_control.minimal_extensions.union(&preferred_extensions);
        let current_extensions = minimal_control.minimal_extensions.union(&checked_extensions);
        let control = InstanceExtensionsControl {
            preferred_extensions,
            all_extensions,
            current_extensions,
            ..minimal_control
        };
        let preferred_supported = checked_extensions.contains(&preferred_extensions);
        proof {
            if preferred_supported {
                assert forall|i: int| pref_ext(i) implies #[trigger] supported_extensions.has(
                    i,
                ) by {
                    assert(preferred_extensions.has(i));
                    assert(checked_extensions.has(i));
                }
            } else {
                let w = choose|i: int|
                    preferred_extensions.has(i) && !checked_extensions.has(i);
                assert(pref_ext(w) && !supported_extensions.has(w));
            }
        }
        if preferred_supported {
            InstExtControlCreateResult::Complete(control)
        } else {
            InstExtControlCreateResult::PreferredExtNotSupported(control)
        }
    }

    /// What a successful windows-path check establishes: the minimal set
    /// is supported, the field sets carry the two vocabularies, and the
    /// enabled set is the minimal set plus the supported preferred ones.
    pub open spec fn windows_control_wf(
        c: InstanceExtensionsControl,
        supported: CapabilitySet,
    ) -> bool {
        &&& c.supported_extensions == supported
        &&& (forall|i: int| min_ext(i) ==> #[trigger] supported.has(i))
        &&& (forall|i: int| #[trigger] c.minimal_extensions.has(i) <==> min_ext(i))
        &&& (forall|i: int| #[trigger] c.preferred_extensions.has(i) <==> pref_ext(i))
        &&& (forall|i: int| #[trigger] c.all_extensions.has(i) <==> min_ext(i) || pref_ext(i))
        &&& (forall|i: int|
            #[trigger] c.current_extensions.has(i) <==> min_ext(i) || (pref_ext(i)
                && supported.has(i)))
    }

    /// The extensions the library supports on this machine.
    pub fn supported_extensions(&self) -> (r: &CapabilitySet)
        ensures
            r == self.supported_extensions,
    {
        &self.supported_extensions
    }

    /// The minimal extension set needed to run.
    pub fn minimal_extensions(&self) -> (r: &CapabilitySet)
        ensures
            r == self.minimal_extensions,
    {
        &self.minimal_extensions
    }

    /// The preferred extensions, which may end up not enabled.
    pub fn preferred_extensions(&self) -> (r: &CapabilitySet)
        ensures
            r == self.preferred_extensions,
    {
        &self.preferred_extensions
    }

    /// Every extension the application can make use of.
    pub fn all_extensions(&self) -> (r: &CapabilitySet)
        ensures
            r == self.all_extensions,
    {
        &self.all_extensions
    }

    /// The extensions checked against this machine and enabled on the
    /// connection.
    pub fn current_extensions(&self) -> (r: &CapabilitySet)
        ensures
            r == self.current_extensions,
    {
        &self.current_extensions
    }

    /// The optional extensions that are not available on this machine.
    pub fn missing_extensions(&self) -> (r: CapabilitySet)
        ensures
            forall|i: int|
                #[trigger] r.has(i) <==> self.all_extensions.has(i)
                    && !self.current_extensions.has(i),
    {
        self.all_extensions.difference(&self.current_extensions)
    }
}

/// The version of the library a connection was opened against.
#[derive(Clone, Copy, Debug, PartialEq, Eq, Structural)]
pub struct ApiVersion {
    pub major: u32,
    pub minor: u32,
    pub patch: u32,
}

/// A validated connection to the graphics library: the version the driver
/// reported, the extensions it actually enabled, and the extension control
/// the connection was opened with.
#[derive(Clone, Copy, Debug, PartialEq, Eq, Structural)]
pub struct VulkanInstance {
    pub api_version: ApiVersion,
    pub enabled_extensions: CapabilitySet,
    pub instance_extensions_control: InstanceExtensionsControl,
}

impl VulkanInstance {
    /// Validates a freshly opened connection: the extensions the driver
    /// enabled must contain every extension the control asked for, else
    /// the connection is unusable.
    pub fn new(
        api_version: ApiVersion,
        enabled_extensions: CapabilitySet,
        instance_ext_control: InstanceExtensionsControl,
    ) -> (r: Result<VulkanInstance, RendererInitError>)
        ensures
            r is Ok <==> instance_ext_control.current_extensions.subset_of(enabled_extensions),
            r matches Ok(vi) ==> vi == (VulkanInstance {
                api_version,
                enabled_extensions,
                instance_extensions_control: instance_ext_control,
            }),
            r matches Err(e) ==> e matches RendererInitError::InstanceExtNotSupported,
    {
        if !enabled_extensions.contains(&instance_ext_control.current_extensions) {
            return Err(RendererInitError::InstanceExtNotSupported);
        }
        Ok(
            VulkanInstance {
                api_version,
                enabled_extensions,
                instance_extensions_control: instance_ext_control,
            },
        )
    }

    /// The version of the library the connection was opened against.
    pub fn api_version(&self) -> (r: ApiVersion)
        ensures
            r == self.api_version,
    {
        self.api_version
    }

    /// The extensions the library supports on this machine.
    pub fn supported_extensions(&self) -> (r: &CapabilitySet)
        ensures
            r == self.instance_extensions_control.supported_extensions,
    {
        self.instance_extensions_control.supported_extensions()
    }

    /// The minimal extension set needed to run.
    pub fn minimal_extensions(&self) -> (r: &CapabilitySet)
        ensures
            r == self.instance_extensions_control.minimal_extensions,
    {
        self.instance_extensions_control.minimal_extensions()
    }

    /// The preferred extensions, which may end up not enabled.
    pub fn preferred_extensions(&self) -> (r: &CapabilitySet)
        ensures
            r == self.instance_extensions_control.preferred_extensions,
    {
        self.instance_extensions_control.preferred_extensions()
    }

    /// Every extension the application can make use of.
    pub fn all_extensions(&self) -> (r: &CapabilitySet)
        ensures
            r == self.instance_extensions_control.all_extensions,
    {
        self.instance_extensions_control.all_extensions()
    }

    /// The extensions checked against this machine and enabled on the
    /// connection.
    pub fn current_extensions(&self) -> (r: &CapabilitySet)
        ensures
            r == self.instance_extensions_control.current_extensions,
    {
        self.instance_extensions_control.current_extensions()
    }

    /// The optional extensions that are not available on this machine.
    pub fn missing_extensions(&self) -> (r: CapabilitySet)
        ensures
            forall|i: int|
                #[trigger] r.has(i) <==> self.instance_extensions_control.all_extensions.has(i)
                    && !self.instance_extensions_control.current_extensions.has(i),
    {
        self.instance_extensions_control.missing_extensions()
    }
}

} // verus!
