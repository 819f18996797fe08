//! The frame loop driver: a state machine over
//! `Idle → Acquiring → Rendering → Presenting → Idle`, with an out-of-date
//! exit back to `Idle` from acquiring or presenting and a fatal terminal
//! state for unexpected device errors.
//!
//! The platform layer performs the actual acquire, submit and present
//! calls and reports each outcome back; every decision — whether a frame
//! may start, where an outcome leads, and when the shared parameter buffer
//! may be written — is made here.

use vstd::prelude::*;

verus! {

/// The state of the frame loop.
#[derive(Clone, Copy, Debug, PartialEq, Eq, Structural)]
pub enum FrameState {
    Idle,
    Acquiring,
    Rendering,
    Presenting,
    Fatal,
}

/// What the presentation subsystem answered when the next image was
/// requested.
#[derive(Clone, Copy, Debug, PartialEq, Eq, Structural)]
pub enum AcquireOutcome {
    /// An image is available. A suboptimal chain still renders this frame;
    /// the flag is ignored until the next resize recreates the swapchain.
    Image { image_index: u32, suboptimal: bool },
    /// The swapchain no longer matches the surface; the frame is abandoned.
    OutOfDate,
    /// An unexpected device error.
    DeviceError,
}

/// What the queue answered when the prebuilt command buffer was submitted.
#[derive(Clone, Copy, Debug, PartialEq, Eq, Structural)]
pub enum SubmitOutcome {
    Submitted,
    /// Submission failed; the frame is skipped without touching shared
    /// state.
    SubmitFailed,
}

/// What presenting the frame (and waiting on its fence) answered.
#[derive(Clone, Copy, Debug, PartialEq, Eq, Structural)]
pub enum PresentOutcome {
    /// The GPU confirmed completion; the CPU may now write shared state.
    Presented,
    /// The swapchain no longer matches the surface; the frame is dropped.
    OutOfDate,
    /// An unexpected device error.
    DeviceError,
}

/// The frame loop driver. It tracks the swapchain generation, the
/// generation the per-frame resources were built for, the image of the
/// frame in flight, and how often the shared parameter buffer has been
/// written — the buffer is written only after a presented frame's fence
/// wait, never on an abandoned frame.
#[derive(Clone, Copy, Debug, PartialEq, Eq, Structural)]
pub struct FrameLoopDriver {
    pub state: FrameState,
    /// Generation of the swapchain currently presented to.
    pub swapchain_generation: u64,
    /// Generation the current per-frame resources were built for.
    pub resources_generation: u64,
    /// The image index acquired for the frame in flight.
    pub pending_image: Option<u32>,
    /// How many times the shared parameter buffer has been written.
    pub parameter_writes: u64,
    /// Set when an out-of-date signal demands a swapchain rebuild.
    pub needs_rebuild: bool,
}

impl FrameLoopDriver {
    /// A frame is in flight only when an image has been acquired for it.
    pub open spec fn wf(self) -> bool {
        self.state is Rendering || self.state is Presenting ==> self.pending_image is Some
    }

    /// A fresh driver over a swapchain and matching resources of the given
    /// generation.
    pub fn new(generation: u64) -> (driver: Self)
        ensures
            driver == (FrameLoopDriver {
                state: FrameState::Idle,
                swapchain_generation: generation,
                resources_generation: generation,
                pending_image: None,
                parameter_writes: 0,
                needs_rebuild: false,
            }),
            driver.wf(),
    {
        FrameLoopDriver {
            state: FrameState::Idle,
            swapchain_generation: generation,
            resources_generation: generation,
            pending_image: None,
            parameter_writes: 0,
            needs_rebuild: false,
        }
    }

    /// Whether a new frame may start: only from idle, only when no rebuild
    /// is owed and the per-frame resources belong to the current swapchain
    /// generation. A command buffer of a stale generation is never
    /// submitted.
    pub open spec fn may_start_frame(self) -> bool {
        &&& self.state is Idle
        &&& !self.needs_rebuild
        &&& self.resources_generation == self.swapchain_generation
    }

    /// Starts a frame: moves to `Acquiring` and reports `true`, or refuses
    /// and stays idle when the resources are stale or a rebuild is owed.
    pub fn begin_frame(&mut self) -> (acquiring: bool)
        requires
            old(self).state is Idle,
            old(self).wf(),
        ensures
            acquiring == old(self).may_start_frame(),
            acquiring ==> *final (self) == (FrameLoopDriver {
                state: FrameState::Acquiring,
                ..*old(self)
            }),
            !acquiring ==> *final (self) == *old(self),
            final (self).wf(),
    {
        if !self.needs_rebuild && self.resources_generation == self.swapchain_generation {
            self.state = FrameState::Acquiring;
            true
        } else {
            false
        }
    }

    /// Consumes the acquire outcome. An image moves the frame to
    /// `Rendering`; out-of-date abandons the frame back to `Idle` — the
    /// parameter buffer is not written — and records that the swapchain
    /// must be rebuilt; a device error is fatal.
    pub fn on_acquire(&mut self, outcome: AcquireOutcome)
        requires
            old(self).state is Acquiring,
            old(self).wf(),
        ensures
            final (self).swapchain_generation == old(self).swapchain_generation,
            final (self).resources_generation == old(self).resources_generation,
            final (self).parameter_writes == old(self).parameter_writes,
            match outcome {
                AcquireOutcome::Image { image_index, suboptimal } => *final (self) == (
                FrameLoopDriver {
                    state: FrameState::Rendering,
                    pending_image: Some(image_index),
                    ..*old(self)
                }),
                AcquireOutcome::OutOfDate => *final (self) == (FrameLoopDriver {
                    state: FrameState::Idle,
                    pending_image: None,
                    needs_rebuild: true,
                    ..*old(self)
                }),
                AcquireOutcome::DeviceError => *final (self) == (FrameLoopDriver {
                    state: FrameState::Fatal,
                    ..*old(self)
                }),
            },
            final (self).wf(),
    {
        match outcome {
            AcquireOutcome::Image { image_index, suboptimal: _ } => {
                self.state = FrameState::Rendering;
                self.pending_image = Some(image_index);
            },
            AcquireOutcome::OutOfDate => {
                self.state = FrameState::Idle;
                self.pending_image = None;
                self.needs_rebuild = true;
            },
            AcquireOutcome::DeviceError => {
                self.state = FrameState::Fatal;
            },
        }
    }

    /// Consumes the submit outcome. Success moves on to `Presenting`; a
    /// failed submission skips the frame back to `Idle` without touching
    /// shared state.
    pub fn on_submit(&mut self, outcome: SubmitOutcome)
        requires
            old(self).state is Rendering,
            old(self).wf(),
        ensures
            final (self).swapchain_generation == old(self).swapchain_generation,
            final (self).resources_generation == old(self).resources_generation,
            final (self).parameter_writes == old(self).parameter_writes,
            final (self).needs_rebuild == old(self).needs_rebuild,
            match outcome {
                SubmitOutcome::Submitted => *final (self) == (FrameLoopDriver {
                    state: FrameState::Presenting,
                    ..*old(self)
                }),
                SubmitOutcome::SubmitFailed => *final (self) == (FrameLoopDriver {
                    state: FrameState::Idle,
                    pending_image: None,
                    ..*old(self)
                }),
            },
            final (self).wf(),
    {
        match outcome {
            SubmitOutcome::Submitted => {
                self.state = FrameState::Presenting;
            },
            SubmitOutcome::SubmitFailed => {
                self.state = FrameState::Idle;
                self.pending_image = None;
            },
        }
    }

    /// Consumes the present outcome after the bounded fence wait. Only a
    /// confirmed presentation counts one write of the shared parameter
    /// buffer: the GPU has finished reading it, so the CPU may mutate it
    /// for the next frame. An out-of-date present drops the frame
    /// silently; a device error is fatal.
    pub fn on_present(&mut self, outcome: PresentOutcome)
        requires
            old(self).state is Presenting,
            old(self).wf(),
            old(self).parameter_writes < u64::MAX,
        ensures
            final (self).swapchain_generation == old(self).swapchain_generation,
            final (self).resources_generation == old(self).resources_generation,
            match outcome {
                PresentOutcome::Presented => *final (self) == (FrameLoopDriver {
                    state: FrameState::Idle,
                    pending_image: None,
                    parameter_writes: (old(self).parameter_writes + 1) as u64,
                    ..*old(self)
                }),
                PresentOutcome::OutOfDate => *final (self) == (FrameLoopDriver {
                    state: FrameState::Idle,
                    pending_image: None,
                    needs_rebuild: true,
                    ..*old(self)
                }),
                PresentOutcome::DeviceError => *final (self) == (FrameLoopDriver {
                    state: FrameState::Fatal,
                    ..*old(self)
                }),
            },
            final (self).wf(),
    {
        match outcome {
            PresentOutcome::Presented => {
                self.state = FrameState::Idle;
                self.pending_image = None;
                self.parameter_writes = self.parameter_writes + 1;
            },
            PresentOutcome::OutOfDate => {
                self.state = FrameState::Idle;
                self.pending_image = None;
                self.needs_rebuild = true;
            },
            PresentOutcome::DeviceError => {
                self.state = FrameState::Fatal;
            },
        }
    }

    /// Records that the swapchain was recreated under the given
    /// generation. The per-frame resources are stale until a matching
    /// rebuild is recorded, and no frame starts in between.
    pub fn note_swapchain_recreated(&mut self, generation: u64)
        requires
            old(self).state is Idle,
            old(self).wf(),
        ensures
            *final (self) == (FrameLoopDriver {
                swapchain_generation: generation,
                ..*old(self)
            }),
            final (self).wf(),
    {
        self.swapchain_generation = generation;
    }

    /// Records that the per-frame resources were rebuilt for the given
    /// generation. When they match the swapchain again, the owed rebuild
    /// is discharged and frames may start.
    pub fn note_resources_rebuilt(&mut self, generation: u64)
        requires
            old(self).state is Idle,
            old(self).wf(),
        ensures
            *final (self) == (FrameLoopDriver {
                resources_generation: generation,
                needs_rebuild: old(self).needs_rebuild && generation
                    != old(self).swapchain_generation,
                ..*old(self)
            }),
            final (self).wf(),
            generation == old(self).swapchain_generation ==> !final (self).needs_rebuild,
    {
        self.resources_generation = generation;
        if generation == self.swapchain_generation {
            self.needs_rebuild = false;
        }
    }
}

} // verus!
