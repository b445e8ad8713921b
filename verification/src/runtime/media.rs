//! Texture metadata a texture handle is registered with: device identity,
//! frame dimensions, pixel format and colour description.
use vstd::prelude::*;
use crate::text::{strings_equal, strings_view};

verus! {

/// GPU/CPU API a texture lives in.
#[derive(Debug, Clone, Copy, PartialEq, Eq, Structural)]
pub enum TextureBackend {
    MetalTexture,
    D3d12Resource,
    VulkanImage,
    CpuBuffer,
}

/// The device a texture belongs to.
#[derive(Debug, Clone)]
pub struct RuntimeDeviceId {
    pub backend: TextureBackend,
    pub adapter_id: String,
    pub device_id: String,
}

/// Width and height in pixels.
#[derive(Debug, Clone, Copy, PartialEq, Eq, Structural)]
pub struct FrameDimensions {
    pub width: u32,
    pub height: u32,
}

#[derive(Debug, Clone, Copy, PartialEq, Eq, Structural)]
pub enum VideoPixelFormat {
    Bgra8,
    Rgba8,
    Nv12,
    Yuv420p,
}

#[derive(Debug, Clone, Copy, PartialEq, Eq, Structural)]
pub enum ColorPrimaries {
    Bt709,
    Bt2020,
    DisplayP3,
}

#[derive(Debug, Clone, Copy, PartialEq, Eq, Structural)]
pub enum ColorTransfer {
    Srgb,
    Bt709,
    Pq,
    Hlg,
}

#[derive(Debug, Clone, Copy, PartialEq, Eq, Structural)]
pub enum ColorMatrix {
    Identity,
    Bt709,
    Bt2020Ncl,
}

#[derive(Debug, Clone, Copy, PartialEq, Eq, Structural)]
pub enum ColorRange {
    Full,
    Limited,
}

/// Colour description of a frame, with any notes about it.
#[derive(Debug, Clone)]
pub struct VideoColorMetadata {
    pub primaries: ColorPrimaries,
    pub transfer: ColorTransfer,
    pub matrix: ColorMatrix,
    pub range: ColorRange,
    pub diagnostics: Vec<String>,
}

/// Metadata a texture handle is registered with.
#[derive(Debug, Clone)]
pub struct TextureHandleDescriptor {
    pub backend: TextureBackend,
    pub device: RuntimeDeviceId,
    pub dimensions: FrameDimensions,
    pub pixel_format: VideoPixelFormat,
    pub color: VideoColorMetadata,
}

/// Value of a device identity.
pub open spec fn device_view(d: RuntimeDeviceId) -> (TextureBackend, Seq<char>, Seq<char>) {
    (d.backend, d.adapter_id@, d.device_id@)
}

/// Value of a colour description.
pub open spec fn color_view(c: VideoColorMetadata) -> (ColorPrimaries, ColorTransfer, ColorMatrix, ColorRange, Seq<Seq<char>>) {
    (c.primaries, c.transfer, c.matrix, c.range, strings_view(c.diagnostics@))
}

/// Same backend and same device.
pub open spec fn same_device(a: TextureHandleDescriptor, b: TextureHandleDescriptor) -> bool {
    a.backend == b.backend && device_view(a.device) == device_view(b.device)
}

/// Same dimensions, pixel format and colour description.
pub open spec fn same_frame_metadata(a: TextureHandleDescriptor, b: TextureHandleDescriptor) -> bool {
    a.dimensions == b.dimensions && a.pixel_format == b.pixel_format && color_view(a.color) == color_view(b.color)
}

/// Whether two descriptors name the same device.
pub fn descriptors_same_device(a: &TextureHandleDescriptor, b: &TextureHandleDescriptor) -> (r: bool)
    ensures
        r == same_device(*a, *b),
{
    a.backend == b.backend && a.device.backend == b.device.backend && a.device.adapter_id == b.device.adapter_id
        && a.device.device_id == b.device.device_id
}

/// Whether two descriptors describe the same frames.
pub fn descriptors_same_frame_metadata(a: &TextureHandleDescriptor, b: &TextureHandleDescriptor) -> (r: bool)
    ensures
        r == same_frame_metadata(*a, *b),
{
    a.dimensions.width == b.dimensions.width && a.dimensions.height == b.dimensions.height
        && a.pixel_format == b.pixel_format && a.color.primaries == b.color.primaries
        && a.color.transfer == b.color.transfer && a.color.matrix == b.color.matrix
        && a.color.range == b.color.range && strings_equal(&a.color.diagnostics, &b.color.diagnostics)
}

} // verus!
