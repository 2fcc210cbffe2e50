//! Hardware capability flags: the request/response pair used to probe a
//! physical device for optional feature support.
//!
//! A feature set is a plain aggregate of booleans, one per optional hardware
//! capability the engine may use.  Probing is modelled as masking: the
//! hardware's full support set is restricted to the flags a caller requested,
//! so the response carries no stray capabilities and no chained pointers.

use vstd::prelude::*;

verus! {

/// The physical-device features which this engine may utilize, as one flag per
/// optional capability.  The same aggregate serves as a request (flags the
/// caller wants) and as a response (flags the hardware supports).
#[derive(Clone, Copy, Debug, PartialEq, Eq, Structural)]
pub struct EnginePhysicalDeviceFeatures {
    pub acceleration_structure: bool,
    pub buffer_device_address: bool,
    pub descriptor_indexing: bool,
    pub dynamic_rendering: bool,
    pub pageable_device_local_memory: bool,
    pub ray_query: bool,
    pub ray_tracing: bool,
    pub synchronization2: bool,
}

impl Default for EnginePhysicalDeviceFeatures {
    /// The empty feature set: no optional capability requested.
    fn default() -> (r: Self)
        ensures
            r == EnginePhysicalDeviceFeatures::spec_none(),
    {
        EnginePhysicalDeviceFeatures {
            acceleration_structure: false,
            buffer_device_address: false,
            descriptor_indexing: false,
            dynamic_rendering: false,
            pageable_device_local_memory: false,
            ray_query: false,
            ray_tracing: false,
            synchronization2: false,
        }
    }
}

impl EnginePhysicalDeviceFeatures {
    /// The feature set with every flag cleared.
    pub open spec fn spec_none() -> Self {
        EnginePhysicalDeviceFeatures {
            acceleration_structure: false,
            buffer_device_address: false,
            descriptor_indexing: false,
            dynamic_rendering: false,
            pageable_device_local_memory: false,
            ray_query: false,
            ray_tracing: false,
            synchronization2: false,
        }
    }

    /// Containment of one feature set in another: every flag set in `mask`
    /// is also set in `self`.  `descriptor_indexing` carries only
    /// sub-properties and takes no part in containment.
    pub open spec fn spec_contains_mask(self, mask: Self) -> bool {
        &&& (mask.acceleration_structure ==> self.acceleration_structure)
        &&& (mask.buffer_device_address ==> self.buffer_device_address)
        &&& (mask.dynamic_rendering ==> self.dynamic_rendering)
        &&& (mask.pageable_device_local_memory ==> self.pageable_device_local_memory)
        &&& (mask.ray_query ==> self.ray_query)
        &&& (mask.ray_tracing ==> self.ray_tracing)
        &&& (mask.synchronization2 ==> self.synchronization2)
    }

    /// A helper to verify that this feature-set contains every enabled
    /// (i.e., `true`) feature in the provided mask.
    /// # Note
    /// This doesn't contain checking for sub-properties of a feature. For
    /// example, `descriptor_indexing` is not checked because it is only
    /// sub-properties.
    pub fn contains_mask(self, mask: &Self) -> (r: bool)
        ensures
            r == self.spec_contains_mask(*mask),
    {
        (!mask.acceleration_structure || self.acceleration_structure)
            && (!mask.buffer_device_address || self.buffer_device_address)
            && (!mask.dynamic_rendering || self.dynamic_rendering)
            && (!mask.pageable_device_local_memory || self.pageable_device_local_memory)
            && (!mask.ray_query || self.ray_query)
            && (!mask.ray_tracing || self.ray_tracing)
            && (!mask.synchronization2 || self.synchronization2)
    }

    /// The probe response for hardware support `self` and request `request`:
    /// each requested flag keeps the hardware's answer, all others are false.
    pub open spec fn spec_masked(self, request: Self) -> Self {
        EnginePhysicalDeviceFeatures {
            acceleration_structure: self.acceleration_structure && request.acceleration_structure,
            buffer_device_address: self.buffer_device_address && request.buffer_device_address,
            descriptor_indexing: self.descriptor_indexing && request.descriptor_indexing,
            dynamic_rendering: self.dynamic_rendering && request.dynamic_rendering,
            pageable_device_local_memory: self.pageable_device_local_memory
                && request.pageable_device_local_memory,
            ray_query: self.ray_query && request.ray_query,
            ray_tracing: self.ray_tracing && request.ray_tracing,
            synchronization2: self.synchronization2 && request.synchronization2,
        }
    }

    /// Restrict a hardware support set to the flags named in `request`.
    /// This is the pure core of probing a device: the caller asks for a set of
    /// flags and receives the hardware's answer for exactly those flags, with
    /// every other flag reported false.
    pub fn masked(self, request: &Self) -> (r: Self)
        ensures
            r == self.spec_masked(*request),
    {
        EnginePhysicalDeviceFeatures {
            acceleration_structure: self.acceleration_structure && request.acceleration_structure,
            buffer_device_address: self.buffer_device_address && request.buffer_device_address,
            descriptor_indexing: self.descriptor_indexing && request.descriptor_indexing,
            dynamic_rendering: self.dynamic_rendering && request.dynamic_rendering,
            pageable_device_local_memory: self.pageable_device_local_memory
                && request.pageable_device_local_memory,
            ray_query: self.ray_query && request.ray_query,
            ray_tracing: self.ray_tracing && request.ray_tracing,
            synchronization2: self.synchronization2 && request.synchronization2,
        }
    }

    // Getters for features with a single flag representing their support.
    /// Whether acceleration structures are requested or supported.
    pub fn acceleration_structure(&self) -> (r: bool)
        ensures
            r == self.acceleration_structure,
    {
        self.acceleration_structure
    }

    /// Whether buffer device addresses are requested or supported.
    pub fn buffer_device_address(&self) -> (r: bool)
        ensures
            r == self.buffer_device_address,
    {
        self.buffer_device_address
    }

    /// Whether dynamic rendering is requested or supported.
    pub fn dynamic_rendering(&self) -> (r: bool)
        ensures
            r == self.dynamic_rendering,
    {
        self.dynamic_rendering
    }

    /// Whether pageable device-local memory is requested or supported.
    pub fn pageable_device_local_memory(&self) -> (r: bool)
        ensures
            r == self.pageable_device_local_memory,
    {
        self.pageable_device_local_memory
    }

    /// Whether ray queries are requested or supported.
    pub fn ray_query(&self) -> (r: bool)
        ensures
            r == self.ray_query,
    {
        self.ray_query
    }

    /// Whether the ray tracing pipeline is requested or supported.
    pub fn ray_tracing(&self) -> (r: bool)
        ensures
            r == self.ray_tracing,
    {
        self.ray_tracing
    }

    /// Whether synchronization v2 is requested or supported.
    pub fn synchronization2(&self) -> (r: bool)
        ensures
            r == self.synchronization2,
    {
        self.synchronization2
    }

    /// Whether this (probed) feature set carries everything ray tracing needs:
    /// acceleration structures, the ray tracing pipeline, and ray queries.
    pub fn supports_rtx(&self) -> (r: bool)
        ensures
            r == (self.acceleration_structure && self.ray_tracing && self.ray_query),
    {
        self.acceleration_structure && self.ray_tracing && self.ray_query
    }
}

/// Probing is idempotent: masking a probe response against the same request
/// it was produced with changes nothing, so re-probing with the same request
/// yields identical booleans.
pub proof fn lemma_probe_idempotent(
    support: EnginePhysicalDeviceFeatures,
    request: EnginePhysicalDeviceFeatures,
)
    ensures
        support.spec_masked(request).spec_masked(request) == support.spec_masked(request),
{
}

/// A probe response never reports a flag that was not requested, and never
/// reports support the hardware lacks.
pub proof fn lemma_probe_sound(
    support: EnginePhysicalDeviceFeatures,
    request: EnginePhysicalDeviceFeatures,
)
    ensures
        request.spec_contains_mask(support.spec_masked(request)),
        support.spec_contains_mask(support.spec_masked(request)),
{
}

} // verus!
