use vstd::prelude::*;

use crate::device::DeviceDetails;

verus! {

/// Window size used when the surface lets the swap chain pick its extent.
pub const WIDTH: u32 = 800;

pub const HEIGHT: u32 = 600;

/// Raw Vulkan codes of the image formats this library names.
pub const FORMAT_UNDEFINED: i32 = 0;

pub const FORMAT_R8G8B8A8_UNORM: i32 = 37;

pub const FORMAT_B8G8R8A8_UNORM: i32 = 44;

/// Raw Vulkan code of the nonlinear sRGB color space.
pub const COLOR_SPACE_SRGB_NONLINEAR: i32 = 0;

/// Raw Vulkan codes of the present modes this library names.
pub const PRESENT_MODE_IMMEDIATE: i32 = 0;

pub const PRESENT_MODE_MAILBOX: i32 = 1;

pub const PRESENT_MODE_FIFO: i32 = 2;

/// Raw Vulkan flag bits used when creating the swap chain.
pub const IMAGE_USAGE_COLOR_ATTACHMENT: u32 = 0x10;

pub const COMPOSITE_ALPHA_OPAQUE: u32 = 0x1;

/// An image format paired with the color space it is presented in.
#[derive(Clone, Copy, Debug, PartialEq, Eq, Structural)]
pub struct SurfaceFormat {
    pub format: i32,
    pub color_space: i32,
}

#[derive(Clone, Copy, Debug, PartialEq, Eq, Structural)]
pub struct Extent2D {
    pub width: u32,
    pub height: u32,
}

/// What a surface reports about the images a swap chain on it may have.
#[derive(Clone, Copy, Debug, PartialEq, Eq, Structural)]
pub struct SurfaceCapabilities {
    pub min_image_count: u32,
    /// Zero means that the surface sets no upper bound.
    pub max_image_count: u32,
    /// A width of `u32::MAX` means that the extent follows the swap chain.
    pub current_extent: Extent2D,
    pub min_image_extent: Extent2D,
    pub max_image_extent: Extent2D,
    pub current_transform: u32,
}

/// Everything a surface advertises for one accelerator.
#[derive(Debug)]
pub struct SwapChainSupportDetails {
    pub capabilities: SurfaceCapabilities,
    pub formats: Vec<SurfaceFormat>,
    pub present_modes: Vec<i32>,
}

/// How the swap-chain images are shared between queue families.
#[derive(Clone, Copy, Debug, PartialEq, Eq, Structural)]
pub enum ImageSharing {
    /// One family owns the images.
    Exclusive,
    /// The two named families access the images concurrently.
    Concurrent { graphics_family: u32, present_family: u32 },
}

/// The parameters a swap chain is created with.
#[derive(Clone, Copy, Debug, PartialEq, Eq, Structural)]
pub struct SwapchainPlan {
    pub min_image_count: u32,
    pub format: SurfaceFormat,
    pub extent: Extent2D,
    pub image_array_layers: u32,
    pub image_usage: u32,
    pub sharing: ImageSharing,
    pub pre_transform: u32,
    pub composite_alpha: u32,
    pub present_mode: i32,
    pub clipped: bool,
}

/// Raw Vulkan codes of a 2D view over the color aspect.
pub const IMAGE_VIEW_TYPE_2D: i32 = 1;

pub const IMAGE_ASPECT_COLOR: u32 = 0x1;

/// Raw Vulkan code of the swizzle that passes a channel through unchanged.
pub const COMPONENT_SWIZZLE_IDENTITY: i32 = 0;

/// Where each channel of a view reads from, as raw swizzle codes.
#[derive(Clone, Copy, Debug, PartialEq, Eq, Structural)]
pub struct ComponentMapping {
    pub r: i32,
    pub g: i32,
    pub b: i32,
    pub a: i32,
}

/// The parameters of the view created over each swap-chain image: 2D, identity
/// channel mapping, the color aspect, one mip level and one array layer.
#[derive(Clone, Copy, Debug, PartialEq, Eq, Structural)]
pub struct ImageViewPlan {
    pub view_type: i32,
    pub format: i32,
    pub components: ComponentMapping,
    pub aspect_mask: u32,
    pub base_mip_level: u32,
    pub level_count: u32,
    pub base_array_layer: u32,
    pub layer_count: u32,
}

/// 8-bit BGRA in the nonlinear sRGB color space.
pub open spec fn preferred_format() -> SurfaceFormat {
    SurfaceFormat { format: FORMAT_B8G8R8A8_UNORM, color_space: COLOR_SPACE_SRGB_NONLINEAR }
}

/// The format negotiated from a non-empty list of advertised formats.
pub open spec fn negotiated_format(formats: Seq<SurfaceFormat>) -> SurfaceFormat {
    if formats.len() == 1 && formats[0].format == FORMAT_UNDEFINED {
        preferred_format()
    } else if formats.contains(preferred_format()) {
        preferred_format()
    } else {
        formats[0]
    }
}

/// Mailbox if advertised, else FIFO if advertised, else immediate.
pub open spec fn negotiated_present_mode(modes: Seq<i32>) -> i32 {
    if modes.contains(PRESENT_MODE_MAILBOX) {
        PRESENT_MODE_MAILBOX
    } else if modes.contains(PRESENT_MODE_FIFO) {
        PRESENT_MODE_FIFO
    } else {
        PRESENT_MODE_IMMEDIATE
    }
}

/// `wanted` lowered to `hi`, then raised to `lo`.
pub open spec fn clamp_dimension(wanted: u32, lo: u32, hi: u32) -> u32 {
    let capped = if wanted <= hi {
        wanted
    } else {
        hi
    };
    if capped >= lo {
        capped
    } else {
        lo
    }
}

pub open spec fn negotiated_extent(caps: SurfaceCapabilities) -> Extent2D {
    if caps.current_extent.width != u32::MAX {
        caps.current_extent
    } else {
        Extent2D {
            width: clamp_dimension(WIDTH, caps.min_image_extent.width, caps.max_image_extent.width),
            height: clamp_dimension(
                HEIGHT,
                caps.min_image_extent.height,
                caps.max_image_extent.height,
            ),
        }
    }
}

/// One more than the minimum, lowered to the maximum when there is one.
pub open spec fn negotiated_image_count(caps: SurfaceCapabilities) -> int {
    if caps.max_image_count > 0 && caps.min_image_count + 1 > caps.max_image_count {
        caps.max_image_count as int
    } else {
        caps.min_image_count + 1
    }
}

pub open spec fn sharing_for(graphics: u32, present: u32) -> ImageSharing {
    if graphics != present {
        ImageSharing::Concurrent { graphics_family: graphics, present_family: present }
    } else {
        ImageSharing::Exclusive
    }
}

fn clamp_u32(wanted: u32, lo: u32, hi: u32) -> (r: u32)
    ensures
        r == clamp_dimension(wanted, lo, hi),
{
    let capped = if wanted <= hi {
        wanted
    } else {
        hi
    };
    if capped >= lo {
        capped
    } else {
        lo
    }
}

impl SwapChainSupportDetails {
    pub fn new(
        capabilities: SurfaceCapabilities,
        formats: Vec<SurfaceFormat>,
        present_modes: Vec<i32>,
    ) -> (r: Self)
        ensures
            r.capabilities == capabilities,
            r.formats@ == formats@,
            r.present_modes@ == present_modes@,
    {
        SwapChainSupportDetails { capabilities, formats, present_modes }
    }

    pub fn choose_swapchain_surface_format(&self) -> (r: SurfaceFormat)
        requires
            self.formats@.len() > 0,
        ensures
            r == negotiated_format(self.formats@),
    {
        let preferred = SurfaceFormat {
            format: FORMAT_B8G8R8A8_UNORM,
            color_space: COLOR_SPACE_SRGB_NONLINEAR,
        };
        if self.formats.len() == 1 && self.formats[0].format == FORMAT_UNDEFINED {
            return preferred;
        }
        let mut i: usize = 0;
        while i < self.formats.len()
            invariant
                0 <= i <= self.formats@.len(),
                preferred == preferred_format(),
                forall|j: int| 0 <= j < i ==> self.formats@[j] != preferred,
            decreases self.formats@.len() - i,
        {
            if self.formats[i] == preferred {
                assert(self.formats@.contains(preferred_format())) by {
                    assert(self.formats@[i as int] == preferred_format());
                }
                return preferred;
            }
            i = i + 1;
        }
        self.formats[0]
    }

    pub fn choose_swapchain_surface_present_mode(&self) -> (r: i32)
        ensures
            r == negotiated_present_mode(self.present_modes@),
    {
        if contains_mode(&self.present_modes, PRESENT_MODE_MAILBOX) {
            PRESENT_MODE_MAILBOX
        } else if contains_mode(&self.present_modes, PRESENT_MODE_FIFO) {
            PRESENT_MODE_FIFO
        } else {
            PRESENT_MODE_IMMEDIATE
        }
    }

    pub fn choose_swapchain_extent(&self) -> (r: Extent2D)
        ensures
            r == negotiated_extent(self.capabilities),
    {
        let caps = self.capabilities;
        if caps.current_extent.width != u32::MAX {
            return caps.current_extent;
        }
        let min = caps.min_image_extent;
        let max = caps.max_image_extent;
        Extent2D {
            width: clamp_u32(WIDTH, min.width, max.width),
            height: clamp_u32(HEIGHT, min.height, max.height),
        }
    }

    pub fn choose_swapchain_image_count(&self) -> (r: u32)
        requires
            self.capabilities.min_image_count < u32::MAX,
        ensures
            r == negotiated_image_count(self.capabilities),
    {
        let max = self.capabilities.max_image_count;
        let preferred = self.capabilities.min_image_count + 1;
        if max > 0 && preferred > max {
            max
        } else {
            preferred
        }
    }
}

fn contains_mode(modes: &Vec<i32>, mode: i32) -> (r: bool)
    ensures
        r == modes@.contains(mode),
{
    let mut i: usize = 0;
    while i < modes.len()
        invariant
            0 <= i <= modes@.len(),
            forall|j: int| 0 <= j < i ==> modes@[j] != mode,
        decreases modes@.len() - i,
    {
        if modes[i] == mode {
            assert(modes@[i as int] == mode);
            return true;
        }
        i = i + 1;
    }
    false
}

/// Concurrent sharing across the two families when they differ, exclusive
/// ownership when they coincide.
pub fn image_sharing(details: &DeviceDetails) -> (r: ImageSharing)
    ensures
        r == sharing_for(details.graphics_queue_index, details.present_queue_index),
{
    let graphics = details.graphics_queue_index;
    let present = details.present_queue_index;
    if graphics != present {
        ImageSharing::Concurrent { graphics_family: graphics, present_family: present }
    } else {
        ImageSharing::Exclusive
    }
}

/// The creation parameters of the swap chain for the selected device.
pub fn plan_swapchain(support: &SwapChainSupportDetails, details: &DeviceDetails) -> (r:
    SwapchainPlan)
    requires
        support.formats@.len() > 0,
        support.capabilities.min_image_count < u32::MAX,
    ensures
        r.min_image_count == negotiated_image_count(support.capabilities),
        r.format == negotiated_format(support.formats@),
        r.extent == negotiated_extent(support.capabilities),
        r.image_array_layers == 1,
        r.image_usage == IMAGE_USAGE_COLOR_ATTACHMENT,
        r.sharing == sharing_for(details.graphics_queue_index, details.present_queue_index),
        r.pre_transform == support.capabilities.current_transform,
        r.composite_alpha == COMPOSITE_ALPHA_OPAQUE,
        r.present_mode == negotiated_present_mode(support.present_modes@),
        r.clipped,
{
    SwapchainPlan {
        min_image_count: support.choose_swapchain_image_count(),
        format: support.choose_swapchain_surface_format(),
        extent: support.choose_swapchain_extent(),
        image_array_layers: 1,
        image_usage: IMAGE_USAGE_COLOR_ATTACHMENT,
        sharing: image_sharing(details),
        pre_transform: support.capabilities.current_transform,
        composite_alpha: COMPOSITE_ALPHA_OPAQUE,
        present_mode: support.choose_swapchain_surface_present_mode(),
        clipped: true,
    }
}

/// The view parameters for images of the given format.
pub fn image_view_plan(format: i32) -> (r: ImageViewPlan)
    ensures
        r == (ImageViewPlan {
            view_type: IMAGE_VIEW_TYPE_2D,
            format,
            components: ComponentMapping {
                r: COMPONENT_SWIZZLE_IDENTITY,
                g: COMPONENT_SWIZZLE_IDENTITY,
                b: COMPONENT_SWIZZLE_IDENTITY,
                a: COMPONENT_SWIZZLE_IDENTITY,
            },
            aspect_mask: IMAGE_ASPECT_COLOR,
            base_mip_level: 0,
            level_count: 1,
            base_array_layer: 0,
            layer_count: 1,
        }),
{
    ImageViewPlan {
        view_type: IMAGE_VIEW_TYPE_2D,
        format,
        components: ComponentMapping {
            r: COMPONENT_SWIZZLE_IDENTITY,
            g: COMPONENT_SWIZZLE_IDENTITY,
            b: COMPONENT_SWIZZLE_IDENTITY,
            a: COMPONENT_SWIZZLE_IDENTITY,
        },
        aspect_mask: IMAGE_ASPECT_COLOR,
        base_mip_level: 0,
        level_count: 1,
        base_array_layer: 0,
        layer_count: 1,
    }
}

} // verus!
