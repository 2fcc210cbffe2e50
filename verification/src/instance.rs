//! Instance-extension negotiation: the pure decision behind bootstrapping
//! the graphics API instance.
//!
//! Given the extensions a caller requires, the ones it would like, and the
//! ones the runtime advertises, the decision either names the first missing
//! required extension or produces the exact list to enable: every required
//! extension, each available optional one in order, and the surface-related
//! helpers that are auto-enabled when the surface extension is requested.

use vstd::prelude::*;

use crate::extensions_list_contains;

verus! {

/// Target API version: 1.3, for current features and reduced fragmentation
/// of extension support.
pub const VULKAN_API_VERSION: u32 = (1u32 << 22) | (3u32 << 12);

/// The possible errors that may occur when creating a `VulkanCore`.
/// `Loading` and `MissingLayer` arise only in the embedding that actually
/// loads the API and negotiates validation layers; the extension decision
/// itself reports `MissingExtension`.
#[derive(Debug, PartialEq, Eq)]
pub enum VulkanCoreError {
    Loading(String),
    MissingExtension(String),
    MissingLayer(String),
}

/// The negotiated instance state the rest of the engine reads: the API
/// version and which instance extensions were enabled.
#[derive(Debug)]
pub struct VulkanCore {
    pub version: u32,
    pub enabled_instance_extensions: Vec<String>,
}

/// Some listed name's view equals `name`.
pub open spec fn string_list_has(list: Seq<String>, name: Seq<char>) -> bool {
    exists|i: int| 0 <= i < list.len() && list[i]@ == name
}

/// The views of a list of names, in order.
pub open spec fn views_of(list: Seq<String>) -> Seq<Seq<char>>
    decreases list.len(),
{
    if list.len() == 0 {
        Seq::empty()
    } else {
        views_of(list.drop_last()).push(list.last()@)
    }
}

/// The views of the optional names that are available, in order.
pub open spec fn optional_available(optional: Seq<String>, available: Seq<String>) -> Seq<
    Seq<char>,
>
    decreases optional.len(),
{
    if optional.len() == 0 {
        Seq::empty()
    } else {
        let rest = optional_available(optional.drop_last(), available);
        if string_list_has(available, optional.last()@) {
            rest.push(optional.last()@)
        } else {
            rest
        }
    }
}

/// The surface helpers enabled automatically: the swapchain-colorspace
/// extension when available, and the extended-surface-capabilities pair when
/// both halves are available; each only when the surface extension itself is
/// required.
pub open spec fn spec_auto_extras(required: Seq<String>, available: Seq<String>) -> Seq<Seq<char>> {
    let surface = string_list_has(required, "VK_KHR_surface"@);
    let colorspace: Seq<Seq<char>> = if surface && string_list_has(
        available,
        "VK_EXT_swapchain_colorspace"@,
    ) {
        seq!["VK_EXT_swapchain_colorspace"@]
    } else {
        Seq::empty()
    };
    let maintenance: Seq<Seq<char>> = if surface && string_list_has(
        available,
        "VK_KHR_get_surface_capabilities2"@,
    ) && string_list_has(available, "VK_EXT_surface_maintenance1"@) {
        seq!["VK_KHR_get_surface_capabilities2"@, "VK_EXT_surface_maintenance1"@]
    } else {
        Seq::empty()
    };
    colorspace + maintenance
}

/// The exact list of instance extensions to enable, by view: the required
/// names, then each available optional name, then the automatic surface
/// helpers.
pub open spec fn spec_enabled_extensions(
    required: Seq<String>,
    optional: Seq<String>,
    available: Seq<String>,
) -> Seq<Seq<char>> {
    views_of(required) + optional_available(optional, available) + spec_auto_extras(
        required,
        available,
    )
}

impl VulkanCore {
    /// Decide the instance configuration from the required and optional
    /// extension names and the names the runtime advertises.  Fails with the
    /// first missing required extension; otherwise enables exactly the
    /// required names, the available optional names, and the automatic
    /// surface helpers.
    pub fn new(
        required_extensions: &Vec<String>,
        optional_extensions: &Vec<String>,
        available_extensions: &Vec<String>,
    ) -> (r: Result<VulkanCore, VulkanCoreError>)
        ensures
            match r {
                Ok(core) => {
                    &&& forall|i: int|
                        0 <= i < required_extensions@.len() ==> string_list_has(
                            available_extensions@,
                            #[trigger] required_extensions@[i]@,
                        )
                    &&& core.version == VULKAN_API_VERSION
                    &&& views_of(core.enabled_instance_extensions@) == spec_enabled_extensions(
                        required_extensions@,
                        optional_extensions@,
                        available_extensions@,
                    )
                },
                Err(e) => {
                    &&& exists|i: int|
                        0 <= i < required_extensions@.len() && !string_list_has(
                            available_extensions@,
                            #[trigger] required_extensions@[i]@,
                        ) && (forall|k: int|
                            0 <= k < i ==> string_list_has(
                                available_extensions@,
                                #[trigger] required_extensions@[k]@,
                            )) && (e == VulkanCoreError::MissingExtension(required_extensions@[i]))
                },
            },
    {
        let mut i: usize = 0;
        while i < required_extensions.len()
            invariant
                i <= required_extensions@.len(),
                forall|k: int|
                    0 <= k < i ==> string_list_has(
                        available_extensions@,
                        #[trigger] required_extensions@[k]@,
                    ),
            decreases required_extensions@.len() - i,
        {
            if !extensions_list_contains(available_extensions, &required_extensions[i]) {
                proof {
                    assert(!string_list_has(
                        available_extensions@,
                        required_extensions@[i as int]@,
                    ));
                }
                return Err(VulkanCoreError::MissingExtension(required_extensions[i].clone()));
            }
            i += 1;
        }

        let mut enabled: Vec<String> = Vec::new();
        let mut i: usize = 0;
        while i < required_extensions.len()
            invariant
                i <= required_extensions@.len(),
                views_of(enabled@) == views_of(required_extensions@.take(i as int)),
            decreases required_extensions@.len() - i,
        {
            proof {
                lemma_views_of_push(enabled@, required_extensions@[i as int]);
                assert(required_extensions@.take(i + 1) =~= required_extensions@.take(
                    i as int,
                ).push(required_extensions@[i as int]));
                lemma_views_of_push(
                    required_extensions@.take(i as int),
                    required_extensions@[i as int],
                );
            }
            enabled.push(required_extensions[i].clone());
            i += 1;
        }
        proof {
            assert(required_extensions@.take(required_extensions@.len() as int)
                =~= required_extensions@);
        }

        let ghost req_views = views_of(required_extensions@);
        let mut i: usize = 0;
        while i < optional_extensions.len()
            invariant
                i <= optional_extensions@.len(),
                views_of(enabled@) == req_views + optional_available(
                    optional_extensions@.take(i as int),
                    available_extensions@,
                ),
                req_views == views_of(required_extensions@),
            decreases optional_extensions@.len() - i,
        {
            proof {
                assert(optional_extensions@.take(i + 1) =~= optional_extensions@.take(
                    i as int,
                ).push(optional_extensions@[i as int]));
                lemma_optional_available_push(
                    optional_extensions@.take(i as int),
                    optional_extensions@[i as int],
                    available_extensions@,
                );
            }
            if extensions_list_contains(available_extensions, &optional_extensions[i]) {
                proof {
                    lemma_views_of_push(enabled@, optional_extensions@[i as int]);
                    broadcast use Seq::push_distributes_over_add;

                }
                enabled.push(optional_extensions[i].clone());
            }
            i += 1;
        }
        proof {
            assert(optional_extensions@.take(optional_extensions@.len() as int)
                =~= optional_extensions@);
        }

        let ghost base = views_of(enabled@);
        let surface_name: String = "VK_KHR_surface".to_owned();
        let surface_required = extensions_list_contains(required_extensions, &surface_name);
        if surface_required {
            let colorspace_name: String = "VK_EXT_swapchain_colorspace".to_owned();
            if extensions_list_contains(available_extensions, &colorspace_name) {
                proof {
                    lemma_views_of_push(enabled@, colorspace_name);
                }
                enabled.push(colorspace_name);
            }
            let caps2_name: String = "VK_KHR_get_surface_capabilities2".to_owned();
            let maintenance_name: String = "VK_EXT_surface_maintenance1".to_owned();
            if extensions_list_contains(available_extensions, &caps2_name)
                && extensions_list_contains(available_extensions, &maintenance_name) {
                proof {
                    lemma_views_of_push(enabled@, caps2_name);
                }
                enabled.push(caps2_name);
                proof {
                    lemma_views_of_push(enabled@, maintenance_name);
                }
                enabled.push(maintenance_name);
            }
        }
        proof {
            assert(views_of(enabled@) =~= base + spec_auto_extras(
                required_extensions@,
                available_extensions@,
            ));
            assert(views_of(enabled@) =~= spec_enabled_extensions(
                required_extensions@,
                optional_extensions@,
                available_extensions@,
            ));
        }

        Ok(VulkanCore { version: VULKAN_API_VERSION, enabled_instance_extensions: enabled })
    }

    /// Check if the instance configuration was decided with a specific
    /// extension enabled.
    pub fn enabled_instance_extension(&self, ext: &String) -> (r: bool)
        ensures
            r == string_list_has(self.enabled_instance_extensions@, ext@),
    {
        extensions_list_contains(&self.enabled_instance_extensions, ext)
    }
}

/// Unfold one step of `views_of` over a `push`.
proof fn lemma_views_of_push(s: Seq<String>, x: String)
    ensures
        views_of(s.push(x)) == views_of(s).push(x@),
{
    assert(s.push(x).drop_last() =~= s);
    assert(s.push(x).last() == x);
}

/// Unfold one step of `optional_available` over a `push`.
proof fn lemma_optional_available_push(s: Seq<String>, x: String, available: Seq<String>)
    ensures
        optional_available(s.push(x), available) == if string_list_has(available, x@) {
            optional_available(s, available).push(x@)
        } else {
            optional_available(s, available)
        },
{
    assert(s.push(x).drop_last() =~= s);
    assert(s.push(x).last() == x);
}

} // verus!
