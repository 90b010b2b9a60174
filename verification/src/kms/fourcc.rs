//! Pixel formats and memory layouts as the kernel names them.

use drm_fourcc::DrmFourcc;
use drm_fourcc::DrmModifier;
use vstd::prelude::*;

verus! {

/// A framebuffer's pixel format.
#[derive(Clone, Copy, Debug, PartialEq, Eq, Structural)]
pub enum PixelFormat {
    Xrgb8888,
    Argb8888,
    Xbgr8888,
    Abgr8888,
    Rgb565,
    /// Any other format, with its four-character code.
    Other(u32),
}

/// The memory layout that a framebuffer's modifier stands for, as far as a reader of the mapped
/// buffer has to tell layouts apart.
#[derive(Clone, Copy, Debug, PartialEq, Eq, Structural)]
pub enum Layout {
    /// The driver gave no usable modifier.
    Invalid,
    /// Rows follow each other in memory.
    Linear,
    /// Tiled, compressed or unknown.
    Other,
}

/// The pixel format with the given four-character code (`XR24`, `AR24`, `XB24`, `AB24`, `RG16`).
pub open spec fn format_of_code(code: u32) -> PixelFormat {
    if code == 0x3432_5258 {
        PixelFormat::Xrgb8888
    } else if code == 0x3432_5241 {
        PixelFormat::Argb8888
    } else if code == 0x3432_4258 {
        PixelFormat::Xbgr8888
    } else if code == 0x3432_4241 {
        PixelFormat::Abgr8888
    } else if code == 0x3631_4752 {
        PixelFormat::Rgb565
    } else {
        PixelFormat::Other(code)
    }
}

/// The layout that a modifier stands for: zero is linear, and fifty-six set bits are invalid.
pub open spec fn layout_of_modifier(modifier: u64) -> Layout {
    if modifier == 0 {
        Layout::Linear
    } else if modifier == 0x00ff_ffff_ffff_ffff {
        Layout::Invalid
    } else {
        Layout::Other
    }
}

/// Calls `drm_fourcc::DrmFourcc::try_from`. Trusted: of the formats that the library tells apart,
/// the code of each gives that format, and no other code gives one of them.
#[verifier::external_body]
fn recognise_fourcc(code: u32) -> (format: PixelFormat)
    ensures
        format == format_of_code(code),
{
    match DrmFourcc::try_from(code) {
        Ok(DrmFourcc::Xrgb8888) => PixelFormat::Xrgb8888,
        Ok(DrmFourcc::Argb8888) => PixelFormat::Argb8888,
        Ok(DrmFourcc::Xbgr8888) => PixelFormat::Xbgr8888,
        Ok(DrmFourcc::Abgr8888) => PixelFormat::Abgr8888,
        Ok(DrmFourcc::Rgb565) => PixelFormat::Rgb565,
        Ok(_) => PixelFormat::Other(code),
        Err(_) => PixelFormat::Other(code),
    }
}

/// Calls `drm_fourcc::DrmModifier::from`. Trusted: zero gives the linear modifier, the value with
/// the low fifty-six bits set gives the invalid one, and no other value gives either.
#[verifier::external_body]
fn recognise_modifier(modifier: u64) -> (layout: Layout)
    ensures
        layout == layout_of_modifier(modifier),
{
    match DrmModifier::from(modifier) {
        DrmModifier::Invalid => Layout::Invalid,
        DrmModifier::Linear => Layout::Linear,
        _ => Layout::Other,
    }
}

impl PixelFormat {
    /// The pixel format with the given four-character code.
    pub fn from_fourcc(code: u32) -> (format: PixelFormat)
        ensures
            format == format_of_code(code),
    {
        recognise_fourcc(code)
    }

    /// The pixel format of a framebuffer that only tells its bits per pixel and its colour depth,
    /// where that pair is a supported one.
    pub fn from_depth(bpp: u32, depth: u32) -> (format: Option<PixelFormat>)
        ensures
            format == format_of_depth(bpp, depth),
    {
        if bpp == 32 && depth == 24 {
            Some(PixelFormat::Xrgb8888)
        } else if bpp == 32 && depth == 32 {
            Some(PixelFormat::Argb8888)
        } else if bpp == 16 && depth == 16 {
            Some(PixelFormat::Rgb565)
        } else {
            None
        }
    }
}

/// The format of a framebuffer with the given bits per pixel and colour depth.
pub open spec fn format_of_depth(bpp: u32, depth: u32) -> Option<PixelFormat> {
    match (bpp, depth) {
        (32, 24) => Some(PixelFormat::Xrgb8888),
        (32, 32) => Some(PixelFormat::Argb8888),
        (16, 16) => Some(PixelFormat::Rgb565),
        _ => None,
    }
}

/// Whether a buffer with the given modifier can be read row by row. A buffer without a modifier is
/// taken to be readable.
pub fn is_linear(modifier: Option<u64>) -> (linear: bool)
    ensures
        linear == (modifier is None || modifier == Some(0u64)),
{
    match modifier {
        None => true,
        Some(value) => recognise_modifier(value) == Layout::Linear,
    }
}

/// The modifier as it is handed to the video driver: a missing or invalid one is handed on as
/// zero.
pub fn modifier_for_driver(modifier: Option<u64>) -> (raw: u64)
    ensures
        raw == driver_modifier(modifier),
{
    match modifier {
        None => 0,
        Some(value) => {
            if recognise_modifier(value) == Layout::Invalid {
                0
            } else {
                value
            }
        },
    }
}

/// What [`modifier_for_driver`] gives.
pub open spec fn driver_modifier(modifier: Option<u64>) -> u64 {
    match modifier {
        Some(value) if value != 0x00ff_ffff_ffff_ffff => value,
        _ => 0,
    }
}

} // verus!
