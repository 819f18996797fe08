//! Per-frame resources: one image view, one descriptor set and one command
//! buffer per presentable image, all tagged with the swapchain generation
//! they were built for and rebuilt wholesale on every resize.

use vstd::prelude::*;

use crate::errors::BuildError;
use crate::swapchain::{spec_image_chain, PresentableImage, SwapchainState};

verus! {

/// The fixed side length of the compute kernel's workgroup (compiled into
/// the kernel).
pub const LOCAL_GROUP_SIZE: u32 = 16;

/// A view onto the presentable image of one chain slot.
#[derive(Clone, Copy, Debug, PartialEq, Eq, Structural)]
pub struct ImageView {
    pub image_index: u32,
    pub generation: u64,
}

/// A handle to the shared parameter buffer. The buffer is created once,
/// lives for the whole run, and is never recreated on resize; only the
/// descriptor entries that bind it are.
#[derive(Clone, Copy, Debug, PartialEq, Eq, Structural)]
pub struct SharedParameterBuffer {
    pub buffer_id: u64,
}

/// One descriptor set: binding 0 is the slot's image view, binding 1 the
/// shared parameter buffer.
#[derive(Clone, Copy, Debug, PartialEq, Eq, Structural)]
pub struct DescriptorSet {
    pub image_view: ImageView,
    pub parameter_buffer: SharedParameterBuffer,
    pub generation: u64,
}

/// One prerecorded command buffer: bind the compute pipeline, bind the
/// slot's descriptor set at set index 0, dispatch, and copy the result to
/// the slot's presentable image. Recorded for simultaneous use, so it can
/// be resubmitted until the next rebuild.
#[derive(Clone, Copy, Debug, PartialEq, Eq, Structural)]
pub struct CommandBuffer {
    pub image_index: u32,
    pub dispatch_x: u32,
    pub dispatch_y: u32,
    pub dispatch_z: u32,
    pub copies_to_presentable: bool,
    pub generation: u64,
}

/// The per-frame resource set of one swapchain generation.
pub struct PerFrameResourceSet {
    pub views: Vec<ImageView>,
    pub descriptor_sets: Vec<DescriptorSet>,
    pub command_buffers: Vec<CommandBuffer>,
    pub generation: u64,
}

/// The number of workgroups needed to cover `pixels` pixels: the dispatch
/// count is the extent divided by the workgroup side, rounded up.
pub open spec fn spec_group_count(pixels: u32) -> int {
    (pixels + LOCAL_GROUP_SIZE - 1) as int / (LOCAL_GROUP_SIZE as int)
}

/// Computes one dispatch dimension: `ceil(pixels / LOCAL_GROUP_SIZE)`.
pub fn group_count(pixels: u32) -> (r: u32)
    requires
        pixels <= u32::MAX - (LOCAL_GROUP_SIZE - 1),
    ensures
        r == spec_group_count(pixels),
{
    (pixels + (LOCAL_GROUP_SIZE - 1)) / LOCAL_GROUP_SIZE
}

/// An image list can be built against exactly when it has one image per
/// chain slot and every image belongs to the swapchain's generation.
pub open spec fn spec_buildable(sc: SwapchainState, images: Seq<PresentableImage>) -> bool {
    &&& images.len() == sc.image_count
    &&& forall|i: int|
        0 <= i < images.len() ==> (#[trigger] images[i]).generation == sc.generation
}

/// What a successful build returns: sequences of equal length, one entry
/// per presentable image, every entry describing its slot and carrying the
/// swapchain's generation, and every command buffer dispatching enough
/// workgroups to cover the swapchain extent.
pub open spec fn spec_resources_match(
    sc: SwapchainState,
    images: Seq<PresentableImage>,
    parameter_buffer: SharedParameterBuffer,
    set: PerFrameResourceSet,
) -> bool {
    &&& set.generation == sc.generation
    &&& set.views@.len() == sc.image_count
    &&& set.descriptor_sets@.len() == sc.image_count
    &&& set.command_buffers@.len() == sc.image_count
    &&& forall|i: int|
        0 <= i < images.len() ==> #[trigger] set.views@[i] == (ImageView {
            image_index: images[i].image_index,
            generation: sc.generation,
        })
    &&& forall|i: int|
        0 <= i < images.len() ==> #[trigger] set.descriptor_sets@[i] == (DescriptorSet {
            image_view: ImageView {
                image_index: images[i].image_index,
                generation: sc.generation,
            },
            parameter_buffer,
            generation: sc.generation,
        })
    &&& forall|i: int|
        0 <= i < images.len() ==> #[trigger] set.command_buffers@[i] == (CommandBuffer {
            image_index: images[i].image_index,
            dispatch_x: spec_group_count(sc.extent.width) as u32,
            dispatch_y: spec_group_count(sc.extent.height) as u32,
            dispatch_z: 1,
            copies_to_presentable: true,
            generation: sc.generation,
        })
}

/// Builds the per-frame resources for a swapchain: for each presentable
/// image one view, one descriptor set (binding 0 the view, binding 1 the
/// shared parameter buffer) and one command buffer dispatching
/// `ceil(extent / LOCAL_GROUP_SIZE)` workgroups in each spatial dimension.
/// Fails exactly when the image list does not match the swapchain: a
/// partial resource set is never returned.
pub fn build_per_frame_resources(
    swapchain: &SwapchainState,
    images: &Vec<PresentableImage>,
    parameter_buffer: SharedParameterBuffer,
) -> (r: Result<PerFrameResourceSet, BuildError>)
    requires
        swapchain.extent.width <= u32::MAX - (LOCAL_GROUP_SIZE - 1),
        swapchain.extent.height <= u32::MAX - (LOCAL_GROUP_SIZE - 1),
    ensures
        r is Ok <==> spec_buildable(*swapchain, images@),
        r matches Ok(set) ==> spec_resources_match(*swapchain, images@, parameter_buffer, set),
        r matches Err(e) ==> (e == BuildError::ImageCountMismatch <==> images@.len()
            != swapchain.image_count),
        r matches Err(e) ==> (e == BuildError::GenerationMismatch <==> images@.len()
            == swapchain.image_count && exists|i: int|
            0 <= i < images@.len() && (#[trigger] images@[i]).generation != swapchain.generation),
{
    if images.len() != swapchain.image_count as usize {
        return Err(BuildError::ImageCountMismatch);
    }
    let n = images.len();
    for i in 0..n
        invariant
            n == images@.len(),
            images@.len() == swapchain.image_count,
            forall|k: int|
                0 <= k < i ==> (#[trigger] images@[k]).generation == swapchain.generation,
    {
        if images[i].generation != swapchain.generation {
            return Err(BuildError::GenerationMismatch);
        }
    }
    let dispatch_x = group_count(swapchain.extent.width);
    let dispatch_y = group_count(swapchain.extent.height);
    let mut views: Vec<ImageView> = Vec::new();
    let mut descriptor_sets: Vec<DescriptorSet> = Vec::new();
    let mut command_buffers: Vec<CommandBuffer> = Vec::new();
    for i in 0..n
        invariant
            n == images@.len(),
            views@.len() == i,
            descriptor_sets@.len() == i,
            command_buffers@.len() == i,
            dispatch_x == spec_group_count(swapchain.extent.width),
            dispatch_y == spec_group_count(swapchain.extent.height),
            forall|k: int|
                0 <= k < i ==> #[trigger] views@[k] == (ImageView {
                    image_index: images@[k].image_index,
                    generation: swapchain.generation,
                }),
            forall|k: int|
                0 <= k < i ==> #[trigger] descriptor_sets@[k] == (DescriptorSet {
                    image_view: ImageView {
                        image_index: images@[k].image_index,
                        generation: swapchain.generation,
                    },
                    parameter_buffer,
                    generation: swapchain.generation,
                }),
            forall|k: int|
                0 <= k < i ==> #[trigger] command_buffers@[k] == (CommandBuffer {
                    image_index: images@[k].image_index,
                    dispatch_x,
                    dispatch_y,
                    dispatch_z: 1,
                    copies_to_presentable: true,
                    generation: swapchain.generation,
                }),
    {
        let view = ImageView {
            image_index: images[i].image_index,
            generation: swapchain.generation,
        };
        views.push(view);
        descriptor_sets.push(
            DescriptorSet { image_view: view, parameter_buffer, generation: swapchain.generation },
        );
        command_buffers.push(
            CommandBuffer {
                image_index: view.image_index,
                dispatch_x,
                dispatch_y,
                dispatch_z: 1,
                copies_to_presentable: true,
                generation: swapchain.generation,
            },
        );
    }
    Ok(
        PerFrameResourceSet {
            views,
            descriptor_sets,
            command_buffers,
            generation: swapchain.generation,
        },
    )
}

/// The resize round trip: the image chain a swapchain (re)creation returns
/// is always buildable against that swapchain, so rebuilding the per-frame
/// resources after a recreation succeeds and — by the builder's contract —
/// yields view, descriptor-set and command-buffer sequences whose length
/// equals the new swapchain's image count.
pub proof fn lemma_image_chain_is_buildable(sc: SwapchainState, images: Seq<PresentableImage>)
    requires
        spec_image_chain(sc, images),
    ensures
        spec_buildable(sc, images),
{
}

} // verus!
