//! The swapchain: presentable images, per-frame synchronization objects, an
//! optional multisample target, and the acquire/present/recreate state
//! machine.
//!
//! Handles are carried as opaque 64-bit values.  Every operation that the
//! device itself decides (waiting for an image, presenting) is split in two:
//! a request that names exactly the handles to use, and a transition that
//! consumes the device's outcome and updates the state.  The embedding
//! performs the driver call between the two and never decides anything.

use vstd::prelude::*;

use crate::FIVE_SECONDS_IN_NANOSECONDS;
use crate::surface::Extent;
use crate::surface::PresentMode;

verus! {

/// Synchronization objects for a frame in flight.
#[derive(Clone, Copy, Debug, PartialEq, Eq, Structural)]
pub struct FrameInFlightSync {
    pub image_available: u64,
    pub image_rendered: u64,
    pub present_complete: u64,
}

/// A multi-sample anti-aliasing configuration: the chosen sample-count bit
/// and the managed image resources, one per presentation image.
pub struct MultiSampleAntiAliasing {
    pub samples: u32,
    pub images: Vec<u64>,
    pub allocations: Vec<u64>,
    pub image_views: Vec<u64>,
}

/// The result of acquiring the next image from the swapchain.
#[derive(Clone, Copy, Debug, PartialEq, Eq, Structural)]
pub struct NextSwapchainImage {
    pub image_view: u64,
    pub image_index: u32,
    pub suboptimal: bool,
}

/// What the device reported for an acquire request.
#[derive(Clone, Copy, Debug, PartialEq, Eq, Structural)]
pub enum AcquireOutcome {
    /// An image is available; `suboptimal` asks for an eventual recreation.
    Success { image_index: u32, suboptimal: bool },
    /// No image became available within the bounded wait.
    Timeout,
    /// The swapchain no longer matches the surface and must be recreated.
    OutOfDate,
    /// The surface itself is gone; recreation is required.
    SurfaceLost,
    /// Any other device error, by its raw result code.
    DeviceError(i32),
}

/// What the device reported for a present request.
#[derive(Clone, Copy, Debug, PartialEq, Eq, Structural)]
pub enum PresentOutcome {
    /// The image was queued; `suboptimal` asks for an eventual recreation.
    Success { suboptimal: bool },
    /// The swapchain no longer matches the surface and must be recreated.
    OutOfDate,
    /// The surface itself is gone; recreation is required.
    SurfaceLost,
    /// Any other device error, by its raw result code.
    DeviceError(i32),
}

/// A failed acquire or present, as the caller sees it.
#[derive(Clone, Copy, Debug, PartialEq, Eq, Structural)]
pub enum SwapchainError {
    /// The bounded wait elapsed: the device may be hung, surface the error
    /// instead of hanging with it.
    Timeout,
    OutOfDate,
    SurfaceLost,
    DeviceError(i32),
}

/// The exact handles a present call must use.
#[derive(Clone, Copy, Debug, PartialEq, Eq, Structural)]
pub struct PresentRequest {
    /// Semaphore to wait on: the current frame's image-rendered semaphore.
    pub wait_semaphore: u64,
    /// The acquired image index being consumed.
    pub image_index: u32,
    /// The current frame's present fence, when the caller asked to attach
    /// one (meaningful only with the swapchain-maintenance extension).
    pub present_fence: Option<u64>,
}

/// One resource-destruction step, in the exact order to perform.
#[derive(Clone, Copy, Debug, PartialEq, Eq, Hash, Structural)]
pub enum DestroyCommand {
    DestroySemaphore(u64),
    DestroyFence(u64),
    DestroyImageView(u64),
    DestroyImage(u64),
    FreeAllocation(u64),
    DestroySwapchain(u64),
}

/// How to quiesce a retiring swapchain before destroying it.
#[derive(Debug)]
pub enum QuiescePlan {
    /// Wait (bounded) on every per-frame present fence.
    WaitForFences { fences: Vec<u64>, timeout_ns: u64 },
    /// No present fences were used: fall back to a full device-idle wait.
    DeviceWaitIdle,
}

/// A swapchain with synchronization objects for each frame in flight.
pub struct Swapchain {
    pub handle: u64,
    pub images: Vec<u64>,
    pub image_views: Vec<u64>,
    pub format: i32,
    pub color_space: u32,
    pub present_mode: PresentMode,
    pub extent: Extent,
    pub frame_syncs: Vec<FrameInFlightSync>,
    pub current_frame: usize,
    pub acquired_index: Option<u32>,
    pub multisample: Option<MultiSampleAntiAliasing>,
    pub enabled_swapchain_maintenance1: bool,
}

/// The fields acquire and present never touch: everything but the frame
/// cursor and the acquired index.
pub open spec fn same_static_config(a: Swapchain, b: Swapchain) -> bool {
    &&& a.handle == b.handle
    &&& a.images == b.images
    &&& a.image_views == b.image_views
    &&& a.format == b.format
    &&& a.color_space == b.color_space
    &&& a.present_mode == b.present_mode
    &&& a.extent == b.extent
    &&& a.frame_syncs == b.frame_syncs
    &&& a.multisample == b.multisample
    &&& a.enabled_swapchain_maintenance1 == b.enabled_swapchain_maintenance1
}

impl Swapchain {
    /// Structural soundness: at least two frame slots (so recording can
    /// overlap retiring work), a frame cursor inside the ring, one view per
    /// presentation image, per-image multisample resources when present,
    /// and an acquired index that names a real image.
    pub open spec fn wf(&self) -> bool {
        &&& self.frame_syncs@.len() >= 2
        &&& (self.current_frame as int) < self.frame_syncs@.len()
        &&& self.image_views@.len() == self.images@.len()
        &&& match self.multisample {
            Some(m) => m.images@.len() == self.images@.len() && m.image_views@.len()
                == self.images@.len() && m.allocations@.len() == self.images@.len(),
            None => true,
        }
        &&& match self.acquired_index {
            Some(i) => (i as int) < self.images@.len(),
            None => true,
        }
    }

    /// Assemble a new swapchain from the created resources.  The ring starts
    /// at frame zero with no image acquired.
    pub fn new(
        handle: u64,
        images: Vec<u64>,
        image_views: Vec<u64>,
        format: i32,
        color_space: u32,
        present_mode: PresentMode,
        extent: Extent,
        frame_syncs: Vec<FrameInFlightSync>,
        multisample: Option<MultiSampleAntiAliasing>,
        enabled_swapchain_maintenance1: bool,
    ) -> (r: Swapchain)
        requires
            frame_syncs@.len() >= 2,
            image_views@.len() == images@.len(),
            match multisample {
                Some(m) => m.images@.len() == images@.len() && m.image_views@.len()
                    == images@.len() && m.allocations@.len() == images@.len(),
                None => true,
            },
        ensures
            r.wf(),
            r.handle == handle,
            r.images == images,
            r.image_views == image_views,
            r.format == format,
            r.color_space == color_space,
            r.present_mode == present_mode,
            r.extent == extent,
            r.frame_syncs == frame_syncs,
            r.current_frame == 0,
            r.acquired_index is None,
            r.multisample == multisample,
            r.enabled_swapchain_maintenance1 == enabled_swapchain_maintenance1,
    {
        Swapchain {
            handle,
            images,
            image_views,
            format,
            color_space,
            present_mode,
            extent,
            frame_syncs,
            current_frame: 0,
            acquired_index: None,
            multisample,
            enabled_swapchain_maintenance1,
        }
    }

    /// Choose the present mode and image count for a new swapchain: the
    /// preferred mode when the surface supports it (falling back to FIFO),
    /// with its canonical image count clamped into the image-count bounds
    /// the caller queried — per-mode bounds when the extended capabilities
    /// path is available, the surface's global bounds otherwise.
    pub fn choose_present_mode_and_image_count(
        supported_modes: &Vec<PresentMode>,
        preferred: Option<PresentMode>,
        min_images: u32,
        max_images: u32,
    ) -> (r: (PresentMode, u32))
        ensures
            r.0 == crate::surface::spec_choose_present_mode(supported_modes@, preferred).0,
            r.1 == crate::surface::spec_clamp_image_count(
                crate::surface::spec_choose_present_mode(supported_modes@, preferred).1,
                min_images,
                max_images,
            ),
    {
        let (mode, canonical) = crate::surface::choose_present_mode(supported_modes, preferred);
        let count = crate::surface::clamp_image_count(canonical, min_images, max_images);
        (mode, count)
    }

    /// Record the outcome of an acquire request.  On success the image index
    /// is held (the swapchain becomes Acquired) and the caller receives the
    /// image's view; every failure leaves the state untouched and surfaces
    /// the device's verdict — a device that never signals within the bounded
    /// wait yields `Timeout`, never a hang.  Acquiring while an image is
    /// already held is a caller contract violation and is excluded.
    pub fn acquire_next_image(&mut self, outcome: AcquireOutcome) -> (r: Result<
        NextSwapchainImage,
        SwapchainError,
    >)
        requires
            old(self).wf(),
            old(self).acquired_index is None,
            match outcome {
                AcquireOutcome::Success { image_index, .. } => (image_index as int) < old(
                    self,
                ).images@.len(),
                _ => true,
            },
        ensures
            final(self).wf(),
            same_static_config(*final(self), *old(self)),
            final(self).current_frame == old(self).current_frame,
            match outcome {
                AcquireOutcome::Success { image_index, suboptimal } => {
                    &&& final(self).acquired_index == Some(image_index)
                    &&& r == Ok::<NextSwapchainImage, SwapchainError>(
                        NextSwapchainImage {
                            image_view: old(self).image_views@[image_index as int],
                            image_index,
                            suboptimal,
                        },
                    )
                },
                AcquireOutcome::Timeout => final(self).acquired_index is None && r == Err::<
                    NextSwapchainImage,
                    SwapchainError,
                >(SwapchainError::Timeout),
                AcquireOutcome::OutOfDate => final(self).acquired_index is None && r == Err::<
                    NextSwapchainImage,
                    SwapchainError,
                >(SwapchainError::OutOfDate),
                AcquireOutcome::SurfaceLost => final(self).acquired_index is None && r == Err::<
                    NextSwapchainImage,
                    SwapchainError,
                >(SwapchainError::SurfaceLost),
                AcquireOutcome::DeviceError(code) => final(self).acquired_index is None && r
                    == Err::<NextSwapchainImage, SwapchainError>(SwapchainError::DeviceError(code)),
            },
    {
        match outcome {
            AcquireOutcome::Success { image_index, suboptimal } => {
                self.acquired_index = Some(image_index);
                Ok(
                    NextSwapchainImage {
                        image_view: self.image_views[image_index as usize],
                        image_index,
                        suboptimal,
                    },
                )
            },
            AcquireOutcome::Timeout => Err(SwapchainError::Timeout),
            AcquireOutcome::OutOfDate => Err(SwapchainError::OutOfDate),
            AcquireOutcome::SurfaceLost => Err(SwapchainError::SurfaceLost),
            AcquireOutcome::DeviceError(code) => Err(SwapchainError::DeviceError(code)),
        }
    }

    /// The exact handles the present call must use: the current frame's
    /// image-rendered semaphore to wait on, the held image index, and the
    /// current frame's present fence when the caller attaches one.
    pub fn present_request(&self, use_present_fence: bool) -> (r: PresentRequest)
        requires
            self.wf(),
            self.acquired_index is Some,
        ensures
            r.wait_semaphore == self.frame_syncs@[self.current_frame as int].image_rendered,
            r.image_index == self.acquired_index.unwrap(),
            r.present_fence == if use_present_fence {
                Some(self.frame_syncs@[self.current_frame as int].present_complete)
            } else {
                None::<u64>
            },
    {
        let fence = if use_present_fence {
            Some(self.frame_syncs[self.current_frame].present_complete)
        } else {
            None
        };
        let image_index = self.acquired_index.unwrap();
        PresentRequest {
            wait_semaphore: self.frame_syncs[self.current_frame].image_rendered,
            image_index,
            present_fence: fence,
        }
    }

    /// Record the outcome of a present request.  The held index is consumed
    /// (the swapchain returns to Idle) and the frame cursor advances exactly
    /// once, wrapping modulo the ring size, whatever the outcome was; the
    /// result reports suboptimality or the device's error.  Presenting
    /// without a held image is a caller contract violation and is excluded.
    pub fn present(&mut self, outcome: PresentOutcome) -> (r: Result<bool, SwapchainError>)
        requires
            old(self).wf(),
            old(self).acquired_index is Some,
        ensures
            final(self).wf(),
            same_static_config(*final(self), *old(self)),
            final(self).acquired_index is None,
            final(self).current_frame as int == (old(self).current_frame as int + 1) % (old(
                self,
            ).frame_syncs@.len() as int),
            match outcome {
                PresentOutcome::Success { suboptimal } => r == Ok::<bool, SwapchainError>(
                    suboptimal,
                ),
                PresentOutcome::OutOfDate => r == Err::<bool, SwapchainError>(
                    SwapchainError::OutOfDate,
                ),
                PresentOutcome::SurfaceLost => r == Err::<bool, SwapchainError>(
                    SwapchainError::SurfaceLost,
                ),
                PresentOutcome::DeviceError(code) => r == Err::<bool, SwapchainError>(
                    SwapchainError::DeviceError(code),
                ),
            },
    {
        self.acquired_index = None;
        let ring = self.frame_syncs.len();
        let next = self.current_frame + 1;
        if next == ring {
            self.current_frame = 0;
        } else {
            self.current_frame = next;
        }
        proof {
            let len = old(self).frame_syncs@.len() as int;
            let cf = old(self).current_frame as int;
            if cf + 1 == len {
                assert(len % len == 0) by (nonlinear_arith)
                    requires
                        len > 0,
                ;
            } else {
                assert((cf + 1) % len == cf + 1) by (nonlinear_arith)
                    requires
                        0 <= cf + 1 < len,
                ;
            }
        }
        match outcome {
            PresentOutcome::Success { suboptimal } => Ok(suboptimal),
            PresentOutcome::OutOfDate => Err(SwapchainError::OutOfDate),
            PresentOutcome::SurfaceLost => Err(SwapchainError::SurfaceLost),
            PresentOutcome::DeviceError(code) => Err(SwapchainError::DeviceError(code)),
        }
    }

    /// Swap a freshly built replacement into the caller's slot, handing the
    /// retiring swapchain back.  The caller's reference keeps denoting the
    /// same logical object while now reflecting the new configuration; the
    /// retiring instance must be quiesced and destroyed afterwards.
    pub fn recreate_swapchain(&mut self, replacement: Swapchain) -> (retired: Swapchain)
        requires
            replacement.wf(),
        ensures
            *final(self) == replacement,
            retired == *old(self),
            final(self).wf(),
    {
        let mut incoming = replacement;
        core::mem::swap(self, &mut incoming);
        incoming
    }

    /// The per-frame present fences, in ring order.
    pub open spec fn spec_present_fences(s: Seq<FrameInFlightSync>) -> Seq<u64>
        decreases s.len(),
    {
        if s.len() == 0 {
            Seq::empty()
        } else {
            Self::spec_present_fences(s.drop_last()).push(s.last().present_complete)
        }
    }

    /// How to quiesce this swapchain before destruction: with the
    /// swapchain-maintenance extension wait (bounded) on every per-frame
    /// present fence, otherwise fall back to a full device-idle wait.
    pub fn quiesce_plan(&self) -> (r: QuiescePlan)
        ensures
            match r {
                QuiescePlan::WaitForFences { fences, timeout_ns } => {
                    &&& self.enabled_swapchain_maintenance1
                    &&& fences@ == Self::spec_present_fences(self.frame_syncs@)
                    &&& timeout_ns == FIVE_SECONDS_IN_NANOSECONDS
                },
                QuiescePlan::DeviceWaitIdle => !self.enabled_swapchain_maintenance1,
            },
    {
        if self.enabled_swapchain_maintenance1 {
            let mut fences: Vec<u64> = Vec::new();
            let mut i: usize = 0;
            while i < self.frame_syncs.len()
                invariant
                    i <= self.frame_syncs@.len(),
                    fences@ == Self::spec_present_fences(self.frame_syncs@.take(i as int)),
                decreases self.frame_syncs@.len() - i,
            {
                proof {
                    assert(self.frame_syncs@.take(i + 1).drop_last() =~= self.frame_syncs@.take(
                        i as int,
                    ));
                    assert(self.frame_syncs@.take(i + 1).last() == self.frame_syncs@[i as int]);
                }
                fences.push(self.frame_syncs[i].present_complete);
                i += 1;
            }
            proof {
                assert(self.frame_syncs@.take(self.frame_syncs@.len() as int)
                    =~= self.frame_syncs@);
            }
            QuiescePlan::WaitForFences { fences, timeout_ns: FIVE_SECONDS_IN_NANOSECONDS }
        } else {
            QuiescePlan::DeviceWaitIdle
        }
    }

    /// The destruction steps for the sync ring: per slot, its two
    /// semaphores then its fence, in ring order.
    pub open spec fn spec_sync_destroy(s: Seq<FrameInFlightSync>) -> Seq<DestroyCommand>
        decreases s.len(),
    {
        if s.len() == 0 {
            Seq::empty()
        } else {
            Self::spec_sync_destroy(s.drop_last()) + seq![
                DestroyCommand::DestroySemaphore(s.last().image_available),
                DestroyCommand::DestroySemaphore(s.last().image_rendered),
                DestroyCommand::DestroyFence(s.last().present_complete),
            ]
        }
    }

    /// The destruction steps for a list of image views, in order.
    pub open spec fn spec_view_destroy(v: Seq<u64>) -> Seq<DestroyCommand>
        decreases v.len(),
    {
        if v.len() == 0 {
            Seq::empty()
        } else {
            Self::spec_view_destroy(v.drop_last()).push(
                DestroyCommand::DestroyImageView(v.last()),
            )
        }
    }

    /// The destruction steps for the multisample images: per image, destroy
    /// the image then free its allocation.
    pub open spec fn spec_ms_image_destroy(images: Seq<u64>, allocations: Seq<u64>) -> Seq<
        DestroyCommand,
    >
        decreases images.len(),
    {
        if images.len() == 0 {
            Seq::empty()
        } else {
            Self::spec_ms_image_destroy(images.drop_last(), allocations.drop_last()) + seq![
                DestroyCommand::DestroyImage(images.last()),
                DestroyCommand::FreeAllocation(allocations.last()),
            ]
        }
    }

    /// The complete destruction sequence, in strict reverse-creation order:
    /// sync objects, presentation image views, multisample views, then
    /// multisample images with their allocations, and finally the swapchain
    /// handle.  The presentation images themselves never appear: the
    /// platform swapchain object owns them.
    pub open spec fn spec_destroy_commands(s: Swapchain) -> Seq<DestroyCommand> {
        Self::spec_sync_destroy(s.frame_syncs@) + Self::spec_view_destroy(s.image_views@) + (
        match s.multisample {
            Some(m) => Self::spec_view_destroy(m.image_views@) + Self::spec_ms_image_destroy(
                m.images@,
                m.allocations@,
            ),
            None => Seq::empty(),
        }) + seq![DestroyCommand::DestroySwapchain(s.handle)]
    }

    /// Delete the swapchain before dropping ownership: the exact sequence of
    /// destruction steps to perform, in strict reverse-creation order.  The
    /// caller must only run it once the owned resources are no longer being
    /// processed by the device (see `quiesce_plan`).
    pub fn destroy(self) -> (r: Vec<DestroyCommand>)
        requires
            self.wf(),
        ensures
            r@ == Self::spec_destroy_commands(self),
    {
        let ghost me = self;
        let Swapchain { handle, images: _, image_views, frame_syncs, multisample, .. } = self;
        let mut r: Vec<DestroyCommand> = Vec::new();
        let mut i: usize = 0;
        while i < frame_syncs.len()
            invariant
                i <= frame_syncs@.len(),
                frame_syncs@ == me.frame_syncs@,
                r@ == Self::spec_sync_destroy(frame_syncs@.take(i as int)),
            decreases frame_syncs@.len() - i,
        {
            proof {
                assert(frame_syncs@.take(i + 1).drop_last() =~= frame_syncs@.take(i as int));
                assert(frame_syncs@.take(i + 1).last() == frame_syncs@[i as int]);
            }
            let sync = frame_syncs[i];
            r.push(DestroyCommand::DestroySemaphore(sync.image_available));
            r.push(DestroyCommand::DestroySemaphore(sync.image_rendered));
            r.push(DestroyCommand::DestroyFence(sync.present_complete));
            proof {
                assert(r@ =~= Self::spec_sync_destroy(frame_syncs@.take(i as int)) + seq![
                    DestroyCommand::DestroySemaphore(frame_syncs@[i as int].image_available),
                    DestroyCommand::DestroySemaphore(frame_syncs@[i as int].image_rendered),
                    DestroyCommand::DestroyFence(frame_syncs@[i as int].present_complete),
                ]);
            }
            i += 1;
        }
        proof {
            assert(frame_syncs@.take(frame_syncs@.len() as int) =~= frame_syncs@);
        }

        let ghost base1 = Self::spec_sync_destroy(me.frame_syncs@);
        let mut j: usize = 0;
        while j < image_views.len()
            invariant
                j <= image_views@.len(),
                image_views@ == me.image_views@,
                base1 == Self::spec_sync_destroy(me.frame_syncs@),
                r@ == base1 + Self::spec_view_destroy(image_views@.take(j as int)),
            decreases image_views@.len() - j,
        {
            proof {
                assert(image_views@.take(j + 1).drop_last() =~= image_views@.take(j as int));
                assert(image_views@.take(j + 1).last() == image_views@[j as int]);
            }
            r.push(DestroyCommand::DestroyImageView(image_views[j]));
            j += 1;
        }
        proof {
            assert(image_views@.take(image_views@.len() as int) =~= image_views@);
        }

        let ghost base2 = base1 + Self::spec_view_destroy(me.image_views@);
        match multisample {
            Some(m) => {
                let mut k: usize = 0;
                while k < m.image_views.len()
                    invariant
                        k <= m.image_views@.len(),
                        m.image_views@ == me.multisample.unwrap().image_views@,
                        base2 == Self::spec_sync_destroy(me.frame_syncs@)
                            + Self::spec_view_destroy(me.image_views@),
                        r@ == base2 + Self::spec_view_destroy(m.image_views@.take(k as int)),
                    decreases m.image_views@.len() - k,
                {
                    proof {
                        assert(m.image_views@.take(k + 1).drop_last() =~= m.image_views@.take(
                            k as int,
                        ));
                        assert(m.image_views@.take(k + 1).last() == m.image_views@[k as int]);
                    }
                    r.push(DestroyCommand::DestroyImageView(m.image_views[k]));
                    k += 1;
                }
                proof {
                    assert(m.image_views@.take(m.image_views@.len() as int) =~= m.image_views@);
                }
                let ghost base3 = base2 + Self::spec_view_destroy(
                    me.multisample.unwrap().image_views@,
                );
                let mut k: usize = 0;
                while k < m.images.len()
                    invariant
                        k <= m.images@.len(),
                        m.images@.len() == m.allocations@.len(),
                        m.images@ == me.multisample.unwrap().images@,
                        m.allocations@ == me.multisample.unwrap().allocations@,
                        base3 == Self::spec_sync_destroy(me.frame_syncs@)
                            + Self::spec_view_destroy(me.image_views@) + Self::spec_view_destroy(
                            me.multisample.unwrap().image_views@,
                        ),
                        r@ == base3 + Self::spec_ms_image_destroy(
                            m.images@.take(k as int),
                            m.allocations@.take(k as int),
                        ),
                    decreases m.images@.len() - k,
                {
                    proof {
                        assert(m.images@.take(k + 1).drop_last() =~= m.images@.take(k as int));
                        assert(m.allocations@.take(k + 1).drop_last() =~= m.allocations@.take(
                            k as int,
                        ));
                        assert(m.images@.take(k + 1).last() == m.images@[k as int]);
                        assert(m.allocations@.take(k + 1).last() == m.allocations@[k as int]);
                    }
                    r.push(DestroyCommand::DestroyImage(m.images[k]));
                    r.push(DestroyCommand::FreeAllocation(m.allocations[k]));
                    proof {
                        assert(r@ =~= base3 + Self::spec_ms_image_destroy(
                            m.images@.take(k as int),
                            m.allocations@.take(k as int),
                        ) + seq![
                            DestroyCommand::DestroyImage(m.images@[k as int]),
                            DestroyCommand::FreeAllocation(m.allocations@[k as int]),
                        ]);
                    }
                    k += 1;
                }
                proof {
                    assert(m.images@.take(m.images@.len() as int) =~= m.images@);
                    assert(m.allocations@.take(m.allocations@.len() as int) =~= m.allocations@);
                }
            },
            None => {},
        }
        r.push(DestroyCommand::DestroySwapchain(handle));
        proof {
            assert(r@ =~= Self::spec_destroy_commands(me));
        }
        r
    }

    // Swapchain getters.
    /// The index of the frame-in-flight slot the next cycle will use.
    pub fn current_frame(&self) -> (r: usize)
        ensures
            r == self.current_frame,
    {
        self.current_frame
    }

    /// The extent of the presentation images.
    pub fn extent(&self) -> (r: Extent)
        ensures
            r == self.extent,
    {
        self.extent
    }

    /// The number of frame-in-flight slots; always at least two.
    pub fn frames_in_flight(&self) -> (r: usize)
        requires
            self.wf(),
        ensures
            r == self.frame_syncs@.len(),
            r >= 2,
    {
        self.frame_syncs.len()
    }

    /// Every frame slot's synchronization objects, in ring order.
    pub fn frame_syncs(&self) -> (r: &[FrameInFlightSync])
        ensures
            r@ == self.frame_syncs@,
    {
        self.frame_syncs.as_slice()
    }

    /// The current frame's image-available semaphore.
    pub fn image_available(&self) -> (r: u64)
        requires
            self.wf(),
        ensures
            r == self.frame_syncs@[self.current_frame as int].image_available,
    {
        self.frame_syncs[self.current_frame].image_available
    }

    /// The format of the presentation images.
    pub fn image_format(&self) -> (r: i32)
        ensures
            r == self.format,
    {
        self.format
    }

    /// The current frame's image-rendered semaphore.
    pub fn image_rendered(&self) -> (r: u64)
        requires
            self.wf(),
        ensures
            r == self.frame_syncs@[self.current_frame as int].image_rendered,
    {
        self.frame_syncs[self.current_frame].image_rendered
    }

    /// The presentation image views, indexed by acquired image index.
    pub fn image_views(&self) -> (r: &[u64])
        ensures
            r@ == self.image_views@,
    {
        self.image_views.as_slice()
    }

    /// The presentation images, owned by the platform swapchain object.
    pub fn images(&self) -> (r: &[u64])
        ensures
            r@ == self.images@,
    {
        self.images.as_slice()
    }

    /// The multisample sample-count bit, when a multisample target exists.
    pub fn multisample_count(&self) -> (r: Option<u32>)
        ensures
            r == match self.multisample {
                Some(m) => Some(m.samples),
                None => None::<u32>,
            },
    {
        match &self.multisample {
            Some(m) => Some(m.samples),
            None => None,
        }
    }

    /// The multisample image views, when a multisample target exists.
    pub fn multisample_views(&self) -> (r: Option<&[u64]>)
        ensures
            match r {
                Some(v) => self.multisample is Some && v@
                    == self.multisample.unwrap().image_views@,
                None => self.multisample is None,
            },
    {
        match &self.multisample {
            Some(m) => Some(m.image_views.as_slice()),
            None => None,
        }
    }

    /// The current frame's present-complete fence.
    pub fn present_complete(&self) -> (r: u64)
        requires
            self.wf(),
        ensures
            r == self.frame_syncs@[self.current_frame as int].present_complete,
    {
        self.frame_syncs[self.current_frame].present_complete
    }

    /// The present mode the swapchain was created with.
    pub fn present_mode(&self) -> (r: PresentMode)
        ensures
            r == self.present_mode,
    {
        self.present_mode
    }
}

/// No destruction step appears twice.
pub open spec fn commands_unique(s: Seq<DestroyCommand>) -> bool {
    forall|p: int, q: int| 0 <= p < q < s.len() ==> s[p] != s[q]
}

/// The sync-ring destruction steps at slot `k` sit at positions `3k..3k+2`.
pub open spec fn sync_cmds_at(s: Seq<FrameInFlightSync>, k: int) -> bool {
    &&& Swapchain::spec_sync_destroy(s)[3 * k] == DestroyCommand::DestroySemaphore(
        s[k].image_available,
    )
    &&& Swapchain::spec_sync_destroy(s)[3 * k + 1] == DestroyCommand::DestroySemaphore(
        s[k].image_rendered,
    )
    &&& Swapchain::spec_sync_destroy(s)[3 * k + 2] == DestroyCommand::DestroyFence(
        s[k].present_complete,
    )
}

/// The multisample destruction steps for image `k` sit at positions
/// `2k` and `2k+1`.
pub open spec fn ms_cmds_at(images: Seq<u64>, allocations: Seq<u64>, k: int) -> bool {
    &&& Swapchain::spec_ms_image_destroy(images, allocations)[2 * k]
        == DestroyCommand::DestroyImage(images[k])
    &&& Swapchain::spec_ms_image_destroy(images, allocations)[2 * k + 1]
        == DestroyCommand::FreeAllocation(allocations[k])
}

/// Where each sync-ring destruction step sits.
proof fn lemma_sync_destroy_index(s: Seq<FrameInFlightSync>)
    ensures
        Swapchain::spec_sync_destroy(s).len() == 3 * s.len(),
        forall|k: int| 0 <= k < s.len() ==> #[trigger] sync_cmds_at(s, k),
    decreases s.len(),
{
    if s.len() > 0 {
        lemma_sync_destroy_index(s.drop_last());
        assert forall|k: int| 0 <= k < s.len() implies #[trigger] sync_cmds_at(s, k) by {
            if k < s.len() - 1 {
                assert(sync_cmds_at(s.drop_last(), k));
                assert(s.drop_last()[k] == s[k]);
            }
        }
    }
}

/// Where each image-view destruction step sits.
proof fn lemma_view_destroy_index(v: Seq<u64>)
    ensures
        Swapchain::spec_view_destroy(v).len() == v.len(),
        forall|k: int|
            0 <= k < v.len() ==> #[trigger] Swapchain::spec_view_destroy(v)[k]
                == DestroyCommand::DestroyImageView(v[k]),
    decreases v.len(),
{
    if v.len() > 0 {
        lemma_view_destroy_index(v.drop_last());
        assert forall|k: int| 0 <= k < v.len() implies #[trigger] Swapchain::spec_view_destroy(
            v,
        )[k] == DestroyCommand::DestroyImageView(v[k]) by {
            if k < v.len() - 1 {
                assert(v.drop_last()[k] == v[k]);
            }
        }
    }
}

/// Where each multisample destruction step sits.
proof fn lemma_ms_destroy_index(images: Seq<u64>, allocations: Seq<u64>)
    requires
        images.len() == allocations.len(),
    ensures
        Swapchain::spec_ms_image_destroy(images, allocations).len() == 2 * images.len(),
        forall|k: int| 0 <= k < images.len() ==> #[trigger] ms_cmds_at(images, allocations, k),
    decreases images.len(),
{
    if images.len() > 0 {
        lemma_ms_destroy_index(images.drop_last(), allocations.drop_last());
        assert forall|k: int| 0 <= k < images.len() implies #[trigger] ms_cmds_at(
            images,
            allocations,
            k,
        ) by {
            if k < images.len() - 1 {
                assert(ms_cmds_at(images.drop_last(), allocations.drop_last(), k));
                assert(images.drop_last()[k] == images[k]);
                assert(allocations.drop_last()[k] == allocations[k]);
            }
        }
    }
}

/// Every sync-ring destruction step names some slot's object, with the
/// shape matching its position.
proof fn lemma_sync_cmd_shape(s: Seq<FrameInFlightSync>, p: int)
    requires
        0 <= p < Swapchain::spec_sync_destroy(s).len(),
    ensures
        0 <= p / 3 < s.len(),
        p % 3 == 0 ==> Swapchain::spec_sync_destroy(s)[p] == DestroyCommand::DestroySemaphore(
            s[p / 3].image_available,
        ),
        p % 3 == 1 ==> Swapchain::spec_sync_destroy(s)[p] == DestroyCommand::DestroySemaphore(
            s[p / 3].image_rendered,
        ),
        p % 3 == 2 ==> Swapchain::spec_sync_destroy(s)[p] == DestroyCommand::DestroyFence(
            s[p / 3].present_complete,
        ),
{
    lemma_sync_destroy_index(s);
    assert(sync_cmds_at(s, p / 3));
}

/// Every multisample destruction step names some image or its allocation,
/// with the shape matching its position.
proof fn lemma_ms_cmd_shape(images: Seq<u64>, allocations: Seq<u64>, p: int)
    requires
        images.len() == allocations.len(),
        0 <= p < Swapchain::spec_ms_image_destroy(images, allocations).len(),
    ensures
        0 <= p / 2 < images.len(),
        p % 2 == 0 ==> Swapchain::spec_ms_image_destroy(images, allocations)[p]
            == DestroyCommand::DestroyImage(images[p / 2]),
        p % 2 == 1 ==> Swapchain::spec_ms_image_destroy(images, allocations)[p]
            == DestroyCommand::FreeAllocation(allocations[p / 2]),
{
    lemma_ms_destroy_index(images, allocations);
    assert(ms_cmds_at(images, allocations, p / 2));
}

/// Concatenating unique, pairwise-disjoint command runs stays unique.
proof fn lemma_unique_concat(a: Seq<DestroyCommand>, b: Seq<DestroyCommand>)
    requires
        commands_unique(a),
        commands_unique(b),
        forall|p: int, q: int| 0 <= p < a.len() && 0 <= q < b.len() ==> #[trigger] a[p] != #[trigger] b[q],
    ensures
        commands_unique(a + b),
{
    assert forall|p: int, q: int| 0 <= p < q < (a + b).len() implies (a + b)[p] != (a + b)[q] by {
        if q < a.len() {
            assert((a + b)[p] == a[p] && (a + b)[q] == a[q]);
        } else if p >= a.len() {
            assert((a + b)[p] == b[p - a.len()] && (a + b)[q] == b[q - a.len()]);
        } else {
            assert((a + b)[p] == a[p] && (a + b)[q] == b[q - a.len()]);
        }
    }
}

/// Owned handles are pairwise distinct: semaphores, fences, views (the
/// swapchain's and the multisample target's together), multisample images
/// and allocations each name no handle twice, and the multisample images
/// are disjoint from the platform-owned presentation images.
pub open spec fn distinct_handles(s: Swapchain) -> bool {
    let syncs = s.frame_syncs@;
    &&& forall|i: int, j: int|
        0 <= i < syncs.len() && 0 <= j < syncs.len() ==> {
            &&& ((#[trigger] syncs[i]).image_available == (#[trigger] syncs[j]).image_available
                ==> i == j)
            &&& (syncs[i].image_rendered == syncs[j].image_rendered ==> i == j)
            &&& (syncs[i].present_complete == syncs[j].present_complete ==> i == j)
            &&& syncs[i].image_available != syncs[j].image_rendered
        }
    &&& forall|i: int, j: int|
        0 <= i < j < s.image_views@.len() ==> #[trigger] s.image_views@[i]
            != #[trigger] s.image_views@[j]
    &&& match s.multisample {
        Some(m) => {
            &&& forall|i: int, j: int|
                0 <= i < j < m.image_views@.len() ==> #[trigger] m.image_views@[i]
                    != #[trigger] m.image_views@[j]
            &&& forall|i: int, j: int|
                0 <= i < s.image_views@.len() && 0 <= j < m.image_views@.len()
                    ==> #[trigger] s.image_views@[i] != #[trigger] m.image_views@[j]
            &&& forall|i: int, j: int|
                0 <= i < j < m.images@.len() ==> #[trigger] m.images@[i] != #[trigger] m.images@[j]
            &&& forall|i: int, j: int|
                0 <= i < j < m.allocations@.len() ==> #[trigger] m.allocations@[i]
                    != #[trigger] m.allocations@[j]
            &&& forall|i: int, j: int|
                0 <= i < m.images@.len() && 0 <= j < s.images@.len() ==> #[trigger] m.images@[i]
                    != #[trigger] s.images@[j]
        },
        None => true,
    }
}

/// The sync-ring destruction steps are pairwise distinct.
proof fn lemma_sync_destroy_unique(s: Seq<FrameInFlightSync>)
    requires
        forall|i: int, j: int|
            0 <= i < s.len() && 0 <= j < s.len() ==> {
                &&& ((#[trigger] s[i]).image_available == (#[trigger] s[j]).image_available ==> i
                    == j)
                &&& (s[i].image_rendered == s[j].image_rendered ==> i == j)
                &&& (s[i].present_complete == s[j].present_complete ==> i == j)
                &&& s[i].image_available != s[j].image_rendered
            },
    ensures
        commands_unique(Swapchain::spec_sync_destroy(s)),
{
    let out = Swapchain::spec_sync_destroy(s);
    lemma_sync_destroy_index(s);
    assert forall|p: int, q: int| 0 <= p < q < out.len() implies out[p] != out[q] by {
        lemma_sync_cmd_shape(s, p);
        lemma_sync_cmd_shape(s, q);
        if out[p] == out[q] {
            assert(s[p / 3] == s[p / 3] && s[q / 3] == s[q / 3]);
            assert(p == q);
        }
    }
}

/// The image-view destruction steps of a duplicate-free view list are
/// pairwise distinct.
proof fn lemma_view_destroy_unique(v: Seq<u64>)
    requires
        forall|i: int, j: int| 0 <= i < j < v.len() ==> #[trigger] v[i] != #[trigger] v[j],
    ensures
        commands_unique(Swapchain::spec_view_destroy(v)),
{
    lemma_view_destroy_index(v);
}

/// The multisample destruction steps are pairwise distinct.
proof fn lemma_ms_destroy_unique(images: Seq<u64>, allocations: Seq<u64>)
    requires
        images.len() == allocations.len(),
        forall|i: int, j: int|
            0 <= i < j < images.len() ==> #[trigger] images[i] != #[trigger] images[j],
        forall|i: int, j: int|
            0 <= i < j < allocations.len() ==> #[trigger] allocations[i]
                != #[trigger] allocations[j],
    ensures
        commands_unique(Swapchain::spec_ms_image_destroy(images, allocations)),
{
    let out = Swapchain::spec_ms_image_destroy(images, allocations);
    lemma_ms_destroy_index(images, allocations);
    assert forall|p: int, q: int| 0 <= p < q < out.len() implies out[p] != out[q] by {
        lemma_ms_cmd_shape(images, allocations, p);
        lemma_ms_cmd_shape(images, allocations, q);
        if out[p] == out[q] {
            assert(p == q);
        }
    }
}

/// Destroying a well-formed swapchain whose owned handles are pairwise
/// distinct issues every owned resource exactly once — each slot's two
/// semaphores and fence, each owned image view, each multisample image with
/// its allocation, and the swapchain handle — and never destroys a
/// platform-owned presentation image.
pub proof fn lemma_destroy_each_resource_once(s: Swapchain)
    requires
        s.wf(),
        distinct_handles(s),
    ensures
        commands_unique(Swapchain::spec_destroy_commands(s)),
        forall|k: int|
            0 <= k < s.frame_syncs@.len() ==> {
                &&& Swapchain::spec_destroy_commands(s).contains(
                    DestroyCommand::DestroySemaphore((#[trigger] s.frame_syncs@[k]).image_available),
                )
                &&& Swapchain::spec_destroy_commands(s).contains(
                    DestroyCommand::DestroySemaphore(s.frame_syncs@[k].image_rendered),
                )
                &&& Swapchain::spec_destroy_commands(s).contains(
                    DestroyCommand::DestroyFence(s.frame_syncs@[k].present_complete),
                )
            },
        forall|k: int|
            0 <= k < s.image_views@.len() ==> Swapchain::spec_destroy_commands(s).contains(
                DestroyCommand::DestroyImageView(#[trigger] s.image_views@[k]),
            ),
        match s.multisample {
            Some(m) => forall|k: int|
                0 <= k < m.images@.len() ==> {
                    &&& Swapchain::spec_destroy_commands(s).contains(
                        DestroyCommand::DestroyImageView(#[trigger] m.image_views@[k]),
                    )
                    &&& Swapchain::spec_destroy_commands(s).contains(
                        DestroyCommand::DestroyImage(m.images@[k]),
                    )
                    &&& Swapchain::spec_destroy_commands(s).contains(
                        DestroyCommand::FreeAllocation(m.allocations@[k]),
                    )
                },
            None => true,
        },
        Swapchain::spec_destroy_commands(s).contains(DestroyCommand::DestroySwapchain(s.handle)),
        forall|k: int|
            0 <= k < s.images@.len() ==> !Swapchain::spec_destroy_commands(s).contains(
                DestroyCommand::DestroyImage(#[trigger] s.images@[k]),
            ),
{
    let a = Swapchain::spec_sync_destroy(s.frame_syncs@);
    let b = Swapchain::spec_view_destroy(s.image_views@);
    let c = match s.multisample {
        Some(m) => Swapchain::spec_view_destroy(m.image_views@) + Swapchain::spec_ms_image_destroy(
            m.images@,
            m.allocations@,
        ),
        None => Seq::<DestroyCommand>::empty(),
    };
    let d = seq![DestroyCommand::DestroySwapchain(s.handle)];
    let out = Swapchain::spec_destroy_commands(s);
    assert(out == a + b + c + d);

    lemma_sync_destroy_index(s.frame_syncs@);
    lemma_view_destroy_index(s.image_views@);
    lemma_sync_destroy_unique(s.frame_syncs@);

    lemma_view_destroy_unique(s.image_views@);

    // Uniqueness of the multisample segment, and of the whole sequence.
    match s.multisample {
        Some(m) => {
            lemma_view_destroy_index(m.image_views@);
            lemma_ms_destroy_index(m.images@, m.allocations@);
            lemma_view_destroy_unique(m.image_views@);
            lemma_ms_destroy_unique(m.images@, m.allocations@);
            let cv = Swapchain::spec_view_destroy(m.image_views@);
            let cp = Swapchain::spec_ms_image_destroy(m.images@, m.allocations@);
            assert forall|p: int, q: int| 0 <= p < cv.len() && 0 <= q < cp.len() implies #[trigger] cv[p]
                != #[trigger] cp[q] by {
                lemma_ms_cmd_shape(m.images@, m.allocations@, q);
            }
            lemma_unique_concat(cv, cp);
            assert forall|p: int, q: int| 0 <= p < a.len() && 0 <= q < b.len() implies #[trigger] a[p]
                != #[trigger] b[q] by {
                lemma_sync_cmd_shape(s.frame_syncs@, p);
            }
            lemma_unique_concat(a, b);
            assert forall|p: int, q: int| 0 <= p < (a + b).len() && 0 <= q < c.len() implies #[trigger] (a
                + b)[p] != #[trigger] c[q] by {
                if p < a.len() {
                    lemma_sync_cmd_shape(s.frame_syncs@, p);
                } else {
                    assert((a + b)[p] == b[p - a.len()]);
                }
                if q < cv.len() {
                    assert(c[q] == cv[q]);
                } else {
                    assert(c[q] == cp[q - cv.len()]);
                    lemma_ms_cmd_shape(m.images@, m.allocations@, q - cv.len());
                }
            }
            lemma_unique_concat(a + b, c);
            assert forall|p: int, q: int| 0 <= p < (a + b + c).len() && 0 <= q < d.len() implies #[trigger] (
            a + b + c)[p] != #[trigger] d[q] by {
                if p < a.len() {
                    assert((a + b + c)[p] == a[p]);
                    lemma_sync_cmd_shape(s.frame_syncs@, p);
                } else if p < a.len() + b.len() {
                    assert((a + b + c)[p] == b[p - a.len()]);
                } else {
                    assert((a + b + c)[p] == c[p - a.len() - b.len()]);
                    if p - a.len() - b.len() < cv.len() {
                        assert(c[p - a.len() - b.len()] == cv[p - a.len() - b.len()]);
                    } else {
                        assert(c[p - a.len() - b.len()] == cp[p - a.len() - b.len() - cv.len()]);
                        lemma_ms_cmd_shape(
                            m.images@,
                            m.allocations@,
                            p - a.len() - b.len() - cv.len(),
                        );
                    }
                }
            }
            lemma_unique_concat(a + b + c, d);
        },
        None => {
            assert forall|p: int, q: int| 0 <= p < a.len() && 0 <= q < b.len() implies #[trigger] a[p]
                != #[trigger] b[q] by {
                lemma_sync_cmd_shape(s.frame_syncs@, p);
            }
            lemma_unique_concat(a, b);
            assert(a + b + c =~= a + b);
            assert forall|p: int, q: int| 0 <= p < (a + b + c).len() && 0 <= q < d.len() implies #[trigger] (
            a + b + c)[p] != #[trigger] d[q] by {
                if p < a.len() {
                    assert((a + b + c)[p] == a[p]);
                    lemma_sync_cmd_shape(s.frame_syncs@, p);
                } else {
                    assert((a + b + c)[p] == b[p - a.len()]);
                }
            }
            lemma_unique_concat(a + b + c, d);
        },
    }

    // Completeness: each owned resource has a position, hence is contained.
    assert forall|k: int| 0 <= k < s.frame_syncs@.len() implies {
        &&& out.contains(
            DestroyCommand::DestroySemaphore((#[trigger] s.frame_syncs@[k]).image_available),
        )
        &&& out.contains(DestroyCommand::DestroySemaphore(s.frame_syncs@[k].image_rendered))
        &&& out.contains(DestroyCommand::DestroyFence(s.frame_syncs@[k].present_complete))
    } by {
        assert(sync_cmds_at(s.frame_syncs@, k));
        assert(out[3 * k] == a[3 * k]);
        assert(out[3 * k + 1] == a[3 * k + 1]);
        assert(out[3 * k + 2] == a[3 * k + 2]);
    }
    assert forall|k: int| 0 <= k < s.image_views@.len() implies out.contains(
        DestroyCommand::DestroyImageView(#[trigger] s.image_views@[k]),
    ) by {
        assert(out[a.len() + k] == b[k]);
    }
    match s.multisample {
        Some(m) => {
            let cv = Swapchain::spec_view_destroy(m.image_views@);
            let cp = Swapchain::spec_ms_image_destroy(m.images@, m.allocations@);
            assert forall|k: int| 0 <= k < m.images@.len() implies {
                &&& out.contains(DestroyCommand::DestroyImageView(#[trigger] m.image_views@[k]))
                &&& out.contains(DestroyCommand::DestroyImage(m.images@[k]))
                &&& out.contains(DestroyCommand::FreeAllocation(m.allocations@[k]))
            } by {
                assert(ms_cmds_at(m.images@, m.allocations@, k));
                assert(out[a.len() + b.len() + k] == c[k] && c[k] == cv[k]);
                assert(out[a.len() + b.len() + cv.len() + 2 * k] == c[cv.len() + 2 * k] && c[
                    cv.len() + 2 * k
                ] == cp[2 * k]);
                assert(out[a.len() + b.len() + cv.len() + 2 * k + 1] == c[cv.len() + 2 * k + 1]
                    && c[cv.len() + 2 * k + 1] == cp[2 * k + 1]);
            }
        },
        None => {},
    }
    assert(out[out.len() - 1] == d[0]);

    // The platform-owned presentation images are never destroyed.
    assert forall|k: int| 0 <= k < s.images@.len() implies !out.contains(
        DestroyCommand::DestroyImage(#[trigger] s.images@[k]),
    ) by {
        if out.contains(DestroyCommand::DestroyImage(s.images@[k])) {
            let p = choose|p: int|
                0 <= p < out.len() && out[p] == DestroyCommand::DestroyImage(s.images@[k]);
            if p < a.len() {
                assert(out[p] == a[p]);
                lemma_sync_cmd_shape(s.frame_syncs@, p);
            } else if p < a.len() + b.len() {
                assert(out[p] == b[p - a.len()]);
            } else if p < a.len() + b.len() + c.len() {
                assert(out[p] == c[p - a.len() - b.len()]);
                match s.multisample {
                    Some(m) => {
                        let cv = Swapchain::spec_view_destroy(m.image_views@);
                        let cp = Swapchain::spec_ms_image_destroy(m.images@, m.allocations@);
                        let pc = p - a.len() - b.len();
                        if pc < cv.len() {
                            assert(c[pc] == cv[pc]);
                        } else {
                            assert(c[pc] == cp[pc - cv.len()]);
                            lemma_ms_cmd_shape(m.images@, m.allocations@, pc - cv.len());
                        }
                    },
                    None => {},
                }
            } else {
                assert(out[p] == d[p - a.len() - b.len() - c.len()]);
            }
        }
    }
}

} // verus!
