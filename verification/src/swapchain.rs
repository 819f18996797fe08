//! Swapchain configuration policy: image count, format choice, creation and
//! recreation of the presentable-image chain.

use vstd::prelude::*;

use crate::errors::SwapchainError;

verus! {

/// A pixel extent in two dimensions.
#[derive(Clone, Copy, Debug, PartialEq, Eq, Structural)]
pub struct Extent {
    pub width: u32,
    pub height: u32,
}

/// One image format the surface reports, as far as the policy reads it:
/// an identifier, whether its encoding is nonlinear sRGB, and whether the
/// device can use it as a compute storage image.
#[derive(Clone, Copy, Debug, PartialEq, Eq, Structural)]
pub struct FormatInfo {
    pub format: u32,
    pub srgb: bool,
    pub storage_supported: bool,
}

/// The usage flags requested for the presentable images.
#[derive(Clone, Copy, Debug, PartialEq, Eq, Structural)]
pub struct ImageUsage {
    pub transfer_src: bool,
    pub transfer_dst: bool,
    pub color_attachment: bool,
    pub storage: bool,
}

/// The color space of the presentable images. Only the nonlinear sRGB
/// space is used.
#[derive(Clone, Copy, Debug, PartialEq, Eq, Structural)]
pub enum ColorSpace {
    SrgbNonLinear,
}

/// The presentation mode. Fixed to first-in-first-out (vsync) by design;
/// it is not configurable at runtime.
#[derive(Clone, Copy, Debug, PartialEq, Eq, Structural)]
pub enum PresentMode {
    Fifo,
}

/// The surface capabilities the device reports, as far as the policy reads
/// them.
#[derive(Clone, Copy, Debug, PartialEq, Eq, Structural)]
pub struct SurfaceCapabilities {
    pub min_image_count: u32,
    /// `None` means the device does not bound the image count.
    pub max_image_count: Option<u32>,
    /// `None` means the surface currently has no fixed extent.
    pub current_extent: Option<Extent>,
}

impl SurfaceCapabilities {
    /// A device never reports a maximum below its minimum.
    pub open spec fn wf(self) -> bool {
        self.max_image_count matches Some(m) ==> self.min_image_count <= m
    }
}

/// One presentable image of a swapchain, identified by its index in the
/// chain and the swapchain generation it belongs to.
#[derive(Clone, Copy, Debug, PartialEq, Eq, Structural)]
pub struct PresentableImage {
    pub image_index: u32,
    pub generation: u64,
}

/// The configuration of a live swapchain. A swapchain is never mutated in
/// place: resizing produces a new value with the next generation number.
#[derive(Clone, Copy, Debug, PartialEq, Eq, Structural)]
pub struct SwapchainState {
    pub image_count: u32,
    pub format: FormatInfo,
    pub color_space: ColorSpace,
    pub extent: Extent,
    pub usage: ImageUsage,
    pub present_mode: PresentMode,
    pub clipped: bool,
    /// Bumped by one on every recreation; per-frame resources carry the
    /// generation they were built for.
    pub generation: u64,
}

/// The image count the policy asks for: triple buffering where the device
/// allows it, clamped into the reported bounds.
pub open spec fn spec_choose_image_count(min: u32, max: Option<u32>) -> int {
    let want: int = if min >= 3 {
        min as int
    } else {
        3
    };
    match max {
        None => want,
        Some(limit) => if want <= limit {
            want
        } else {
            limit as int
        },
    }
}

/// Picks how many presentable images to request from the device, preferring
/// triple buffering and respecting the reported `min`/`max` bounds.
pub fn choose_image_count(min_image_count: u32, max_image_count: Option<u32>) -> (count: u32)
    requires
        max_image_count matches Some(m) ==> min_image_count <= m,
    ensures
        count == spec_choose_image_count(min_image_count, max_image_count),
        min_image_count <= count,
        max_image_count matches Some(m) ==> count <= m,
        max_image_count is None || max_image_count->0 >= 3 ==> count >= 3,
        max_image_count matches Some(m) ==> (m < 3 ==> count == m),
{
    let want: u32 = if min_image_count >= 3 {
        min_image_count
    } else {
        3
    };
    match max_image_count {
        None => want,
        Some(limit) => if want <= limit {
            want
        } else {
            limit
        },
    }
}

/// `f` is the first format of the list whose identifier is `desired`.
pub open spec fn spec_is_first_exact_match(
    formats: Seq<FormatInfo>,
    desired: u32,
    f: FormatInfo,
) -> bool {
    exists|i: int|
        {
            &&& 0 <= i < formats.len()
            &&& #[trigger] formats[i] == f
            &&& formats[i].format == desired
            &&& forall|j: int| 0 <= j < i ==> (#[trigger] formats[j]).format != desired
        }
}

/// The exact-match format policy: the first reported format with the
/// desired identifier, or the first reported format when none matches.
pub open spec fn spec_chosen_surface_format(
    formats: Seq<FormatInfo>,
    desired: u32,
    f: FormatInfo,
) -> bool {
    if exists|i: int| 0 <= i < formats.len() && (#[trigger] formats[i]).format == desired {
        spec_is_first_exact_match(formats, desired, f)
    } else {
        formats.len() > 0 && f == formats[0]
    }
}

/// Picks the presentation format: the first reported format that matches
/// the desired identifier exactly, falling back to the first reported
/// format. This is the one deterministic format policy of the library.
pub fn choose_surface_format(formats: &Vec<FormatInfo>, desired_format: u32) -> (r: FormatInfo)
    requires
        formats@.len() > 0,
    ensures
        spec_chosen_surface_format(formats@, desired_format, r),
{
    let n = formats.len();
    for i in 0..n
        invariant
            n == formats@.len(),
            forall|j: int| 0 <= j < i ==> (#[trigger] formats@[j]).format != desired_format,
    {
        if formats[i].format == desired_format {
            return formats[i];
        }
    }
    formats[0]
}

/// The storage-format chain: a format is preferred in the order
/// "desired linear with storage support", then "desired sRGB with storage
/// support", then "any storage-capable format", then the first reported
/// format.
pub open spec fn storage_rank(f: FormatInfo, desired_linear: u32, desired_srgb: u32) -> int {
    if f.storage_supported && f.format == desired_linear {
        0
    } else if f.storage_supported && f.format == desired_srgb {
        1
    } else if f.storage_supported {
        2
    } else {
        3
    }
}

/// `f` is the first format of rank `rank` in the list, and no format of a
/// better (lower) rank exists anywhere in the list.
pub open spec fn spec_chosen_storage_format(
    formats: Seq<FormatInfo>,
    desired_linear: u32,
    desired_srgb: u32,
    f: FormatInfo,
) -> bool {
    exists|i: int|
        {
            &&& 0 <= i < formats.len()
            &&& #[trigger] formats[i] == f
            &&& forall|j: int|
                0 <= j < formats.len() ==> storage_rank(
                    #[trigger] formats[j],
                    desired_linear,
                    desired_srgb,
                ) >= storage_rank(formats[i], desired_linear, desired_srgb)
            &&& forall|j: int|
                0 <= j < i ==> storage_rank(#[trigger] formats[j], desired_linear, desired_srgb)
                    > storage_rank(formats[i], desired_linear, desired_srgb)
        }
}

/// Picks the render-target format for a compute kernel: the desired linear
/// format if it supports storage, else the desired sRGB format if it does,
/// else the first storage-capable format, else the first reported format.
pub fn choose_storage_format(
    formats: &Vec<FormatInfo>,
    desired_linear: u32,
    desired_srgb: u32,
) -> (r: FormatInfo)
    requires
        formats@.len() > 0,
    ensures
        spec_chosen_storage_format(formats@, desired_linear, desired_srgb, r),
{
    let n = formats.len();
    let mut best_index: usize = 0;
    let mut best_rank: u8 = 3;
    proof {
        assert(storage_rank(formats@[0], desired_linear, desired_srgb) <= 3);
    }
    for i in 0..n
        invariant
            n == formats@.len(),
            n > 0,
            best_index < n,
            best_rank <= 3,
            // the recorded best describes a real element, unless nothing
            // better than the worst rank was seen yet
            if best_rank < 3 {
                storage_rank(formats@[best_index as int], desired_linear, desired_srgb)
                    == best_rank as int
            } else {
                best_index == 0
            },
            // nothing seen so far beats the recorded rank
            forall|j: int|
                0 <= j < i ==> storage_rank(#[trigger] formats@[j], desired_linear, desired_srgb)
                    >= best_rank as int,
            // the recorded best is the first of its rank
            forall|j: int|
                0 <= j < best_index ==> storage_rank(
                    #[trigger] formats@[j],
                    desired_linear,
                    desired_srgb,
                ) > best_rank as int,
    {
        let f = formats[i];
        let rank: u8 = if f.storage_supported && f.format == desired_linear {
            0
        } else if f.storage_supported && f.format == desired_srgb {
            1
        } else if f.storage_supported {
            2
        } else {
            3
        };
        if rank < best_rank {
            best_index = i;
            best_rank = rank;
        }
    }
    proof {
        let bi = best_index as int;
        if best_rank == 3 {
            assert(storage_rank(formats@[bi], desired_linear, desired_srgb) == 3);
        }
        assert(spec_chosen_storage_format(
            formats@,
            desired_linear,
            desired_srgb,
            formats@[bi],
        )) by {
            assert(0 <= bi < formats@.len() && formats@[bi] == formats@[bi]);
        }
    }
    formats[best_index]
}

/// The presentable images that belong to a swapchain: exactly
/// `image_count` of them, indexed in order, all of the swapchain's
/// generation.
pub open spec fn spec_image_chain(sc: SwapchainState, images: Seq<PresentableImage>) -> bool {
    &&& images.len() == sc.image_count
    &&& forall|i: int|
        0 <= i < images.len() ==> #[trigger] images[i] == PresentableImage {
            image_index: i as u32,
            generation: sc.generation,
        }
}

/// Builds the image list of a swapchain.
fn build_image_chain(image_count: u32, generation: u64) -> (images: Vec<PresentableImage>)
    ensures
        images@.len() == image_count,
        forall|i: int|
            0 <= i < images@.len() ==> #[trigger] images@[i] == (PresentableImage {
                image_index: i as u32,
                generation,
            }),
{
    let mut images: Vec<PresentableImage> = Vec::new();
    for i in 0..image_count
        invariant
            images@.len() == i,
            forall|k: int|
                0 <= k < images@.len() ==> #[trigger] images@[k] == (PresentableImage {
                    image_index: k as u32,
                    generation,
                }),
    {
        images.push(PresentableImage { image_index: i, generation });
    }
    images
}

/// Creates the initial swapchain from the reported surface capabilities
/// and format list: triple buffering within bounds, the exact-match format
/// policy, nonlinear sRGB, transfer-destination and color-attachment
/// usage, FIFO presentation, clipped, at generation 0. Fails exactly when
/// the surface reports no formats.
pub fn create_swapchain(
    capabilities: &SurfaceCapabilities,
    formats: &Vec<FormatInfo>,
    desired_format: u32,
) -> (r: Result<(SwapchainState, Vec<PresentableImage>), SwapchainError>)
    requires
        capabilities.wf(),
    ensures
        r is Err <==> formats@.len() == 0,
        r matches Err(e) ==> e == SwapchainError::NoSurfaceFormats,
        r matches Ok((sc, images)) ==> {
            &&& sc.image_count == spec_choose_image_count(
                capabilities.min_image_count,
                capabilities.max_image_count,
            )
            &&& spec_chosen_surface_format(formats@, desired_format, sc.format)
            &&& sc.color_space == ColorSpace::SrgbNonLinear
            &&& sc.extent == match capabilities.current_extent {
                Some(e) => e,
                None => Extent { width: 0, height: 0 },
            }
            &&& sc.usage == (ImageUsage {
                transfer_src: false,
                transfer_dst: true,
                color_attachment: true,
                storage: false,
            })
            &&& sc.present_mode == PresentMode::Fifo
            &&& sc.clipped
            &&& sc.generation == 0
            &&& spec_image_chain(sc, images@)
        },
{
    if formats.len() == 0 {
        return Err(SwapchainError::NoSurfaceFormats);
    }
    let image_extent = match capabilities.current_extent {
        Some(e) => e,
        None => Extent { width: 0, height: 0 },
    };
    let image_count = choose_image_count(
        capabilities.min_image_count,
        capabilities.max_image_count,
    );
    let format = choose_surface_format(formats, desired_format);
    let state = SwapchainState {
        image_count,
        format,
        color_space: ColorSpace::SrgbNonLinear,
        extent: image_extent,
        usage: ImageUsage {
            transfer_src: false,
            transfer_dst: true,
            color_attachment: true,
            storage: false,
        },
        present_mode: PresentMode::Fifo,
        clipped: true,
        generation: 0,
    };
    let images = build_image_chain(image_count, 0);
    Ok((state, images))
}

/// Recreates the swapchain for a new window extent: the configuration is
/// reused as a base, only the extent changes, and the generation is bumped
/// by one. Fails exactly when the new extent is degenerate, in which case
/// the old swapchain value is untouched and the caller may retry later.
pub fn recreate_swapchain(swapchain: &SwapchainState, new_extent: Extent) -> (r: Result<
    (SwapchainState, Vec<PresentableImage>),
    SwapchainError,
>)
    requires
        swapchain.generation < u64::MAX,
    ensures
        r is Err <==> new_extent.width == 0 || new_extent.height == 0,
        r matches Err(e) ==> e == SwapchainError::ExtentOutOfBounds,
        r matches Ok((sc, images)) ==> {
            &&& sc == (SwapchainState {
                extent: new_extent,
                generation: (swapchain.generation + 1) as u64,
                ..*swapchain
            })
            &&& spec_image_chain(sc, images@)
        },
{
    if new_extent.width == 0 || new_extent.height == 0 {
        return Err(SwapchainError::ExtentOutOfBounds);
    }
    let state = SwapchainState {
        extent: new_extent,
        generation: swapchain.generation + 1,
        ..*swapchain
    };
    let images = build_image_chain(state.image_count, state.generation);
    Ok((state, images))
}

} // verus!
