//! Capture of a display output through mapped framebuffers.
//!
//! A capture alternates between questions to the device and decisions. The decisions are made
//! here: each `on_..` method takes the device's answer to one [`CaptureStep`] and gives the next.

use crate::frame_diff::DirtyTiles;
use crate::kms::fourcc::PixelFormat;
use crate::kms::pixel_format::convert_to_bgra_into;
use crate::kms::pixel_format::copy_rows_incremental;
use crate::kms::pixel_format::is_direct_copy;
use crate::kms::pixel_format::ConvertError;
use vstd::prelude::*;

verus! {

/// Most buffers that are kept mapped, and most video-driver contexts that are kept open.
pub const MAX_CACHE_ENTRIES: usize = 16;

/// Active output: connector -> encoder -> CRTC chain.
#[derive(Debug)]
pub struct ActiveOutput {
    pub connector_name: String,
    pub crtc_handle: u32,
    pub x: u32,
    pub y: u32,
    pub width: u32,
    pub height: u32,
    pub fb_handle: u32,
}

/// A framebuffer that is mapped into memory.
#[derive(Clone, Copy, Debug, PartialEq, Eq, Structural)]
pub struct CachedBuffer {
    pub fb_key: u32,
    pub gem_handle: u32,
    /// Size of the mapping in bytes.
    pub size: u64,
    pub format: PixelFormat,
    pub pitch: u32,
    /// Which mapping it is, as numbered by whoever made it.
    pub mapping: u64,
}

/// A buffer that the video driver reads back.
#[derive(Debug)]
pub struct VaapiCapture {
    pub gem_handle: u32,
    /// Which driver context it is, as numbered by whoever opened it.
    pub context: u64,
    pub scratch: Vec<u8>,
}

/// What the kernel tells of a framebuffer with all its planes.
#[derive(Clone, Copy, Debug, PartialEq, Eq)]
pub struct PlanarFramebuffer {
    pub width: u32,
    pub height: u32,
    /// Four-character code of the pixel format.
    pub fourcc: u32,
    pub modifier: Option<u64>,
    pub buffers: [Option<u32>; 4],
    pub pitches: [u32; 4],
    pub offsets: [u32; 4],
}

/// What the kernel tells of a framebuffer without planes.
#[derive(Clone, Copy, Debug, PartialEq, Eq, Structural)]
pub struct PlainFramebuffer {
    pub buffer: Option<u32>,
    pub pitch: u32,
    pub bpp: u32,
    pub depth: u32,
}

/// A buffer to be mapped.
#[derive(Clone, Copy, Debug, PartialEq, Eq, Structural)]
pub struct MapRequest {
    pub fb_key: u32,
    pub gem_handle: u32,
    pub size: u64,
    pub format: PixelFormat,
    pub pitch: u32,
}

/// A buffer to be opened by the video driver.
#[derive(Clone, Copy, Debug, PartialEq, Eq)]
pub struct VaapiRequest {
    pub gem_handle: u32,
    pub src_x: u32,
    pub src_y: u32,
    pub width: u32,
    pub height: u32,
    pub fb_width: u32,
    pub fb_height: u32,
    pub fourcc: u32,
    pub modifier: u64,
    pub pitches: [u32; 4],
    pub offsets: [u32; 4],
    pub num_planes: u32,
}

/// Why a capture failed.
#[derive(Clone, Copy, Debug, PartialEq, Eq, Structural)]
pub enum CaptureError {
    /// The planes of the framebuffer could not be asked for while looking for its buffer.
    Fb2GemQuery,
    /// The framebuffer could not be asked for while looking for its buffer.
    Fb1GemQuery,
    /// The framebuffer names no buffer.
    NoGemFromFb1,
    /// The planes of the framebuffer could not be asked for.
    Fb2Query,
    /// The framebuffer has this modifier, and cannot be read through a mapping.
    NonLinear(u64),
    /// The planes of the framebuffer name no buffer.
    NoBufferInFb2,
    /// The framebuffer could not be asked for.
    Fb1Query,
    /// The framebuffer names no buffer; the privilege to see it is missing.
    NoBufferInFb1,
    /// The framebuffer has these bits per pixel and this depth, which have no conversion.
    UnsupportedDepth(u32, u32),
    /// The buffer could not be exported and mapped.
    PrimeMap,
    /// The buffer could not be reopened and mapped.
    DumbMap,
    /// The video driver could not open the buffer.
    VaapiOpen,
    /// The video driver could not read the buffer back.
    VaapiCapture,
    /// The pixels could not be converted.
    Convert(ConvertError),
}

/// What is to be done next in a capture.
#[derive(Clone, Copy, Debug, PartialEq, Eq)]
pub enum CaptureStep {
    /// Ask for the planes of the framebuffer, to learn its buffer.
    AskGemFb2 { fb: u32 },
    /// Ask for the framebuffer, to learn its buffer.
    AskGemFb1 { fb: u32 },
    /// Read the pixels of the mapped buffer at this place in the cache.
    ReadMapped { index: usize },
    /// Let the video driver read back the buffer at this place in its cache. `fresh` names the
    /// framebuffer if the driver has just opened it.
    ReadVaapi { index: usize, fresh: Option<u32> },
    /// Ask for the planes of the framebuffer, to map it.
    AskFb2 { fb: u32 },
    /// Ask for the framebuffer, to map it.
    AskFb1 { fb: u32 },
    /// Export the buffer and map it. `planar` is what its planes are, where they were asked for.
    MapPrime { request: MapRequest, planar: Option<PlanarFramebuffer> },
    /// Reopen the buffer and map it.
    MapDumb { request: MapRequest, planar: Option<PlanarFramebuffer> },
    /// Let the video driver open the buffer.
    OpenVaapi { fb: u32, driver: VaapiRequest },
    /// Read the pixels of a buffer that was just mapped, and keep the mapping.
    ReadNew { entry: CachedBuffer },
    /// The capture is over. `captured` tells whether there is a new frame.
    Finished { captured: bool },
    /// The capture failed.
    Failed { error: CaptureError },
}

/// Whether a format is one whose rows are copied as they are.
pub open spec fn copies_directly(format: PixelFormat) -> bool {
    format == PixelFormat::Xrgb8888 || format == PixelFormat::Argb8888
}

/// What a conversion of the given buffer returns.
pub open spec fn conversion(
    format: PixelFormat,
    len: int,
    width: int,
    height: int,
    pitch: int,
) -> Result<(), ConvertError> {
    match format {
        PixelFormat::Other(code) => Err(ConvertError::Unsupported(code)),
        _ => if crate::kms::pixel_format::holds_frame(format, len, width, height, pitch) {
            Ok(())
        } else {
            Err(ConvertError::Truncated)
        },
    }
}

/// Persistent capturer of one output, with a cache of mapped buffers.
#[derive(Debug)]
pub struct Capturer {
    pub crtc_handle: u32,
    pub default_fb: u32,
    pub src_x: u32,
    pub src_y: u32,
    pub width: u32,
    pub height: u32,
    /// Whether framebuffers are asked for with their planes, once that is known.
    pub use_fb2: Option<bool>,
    /// Whether buffers are mapped by exporting them, once that is known.
    pub use_prime: Option<bool>,
    pub cache: Vec<CachedBuffer>,
    pub last_fb_key: Option<u32>,
    pub vaapi_cache: Vec<VaapiCapture>,
    pub allow_vaapi_readback: bool,
}

impl Capturer {
    /// The caches keep to their limit, and the size of a frame fits in thirty-two bits.
    pub open spec fn wf(&self) -> bool {
        &&& self.cache@.len() <= MAX_CACHE_ENTRIES
        &&& self.vaapi_cache@.len() <= MAX_CACHE_ENTRIES
        &&& self.width * self.height * 4 <= u32::MAX
    }

    /// Whether the tiles are those of the captured output.
    pub open spec fn tracks(&self, tiles: &DirtyTiles) -> bool {
        &&& tiles.wf()
        &&& tiles.screen_width() == self.width
        &&& tiles.screen_height() == self.height
    }

    /// Creates a capturer of the output that may fall back on the video driver.
    pub fn new(output: &ActiveOutput) -> (capturer: Self)
        ensures
            capturer.crtc_handle == output.crtc_handle,
            capturer.default_fb == output.fb_handle,
            capturer.src_x == output.x,
            capturer.src_y == output.y,
            capturer.width == output.width,
            capturer.height == output.height,
            capturer.use_fb2 is None,
            capturer.use_prime is None,
            capturer.cache@.len() == 0,
            capturer.last_fb_key is None,
            capturer.vaapi_cache@.len() == 0,
            capturer.allow_vaapi_readback,
    {
        Self::new_with_options(output, true)
    }

    /// Creates a capturer of the output.
    pub fn new_with_options(output: &ActiveOutput, allow_vaapi_readback: bool) -> (capturer: Self)
        ensures
            capturer.crtc_handle == output.crtc_handle,
            capturer.default_fb == output.fb_handle,
            capturer.src_x == output.x,
            capturer.src_y == output.y,
            capturer.width == output.width,
            capturer.height == output.height,
            capturer.use_fb2 is None,
            capturer.use_prime is None,
            capturer.cache@.len() == 0,
            capturer.last_fb_key is None,
            capturer.vaapi_cache@.len() == 0,
            capturer.allow_vaapi_readback == allow_vaapi_readback,
    {
        Capturer {
            crtc_handle: output.crtc_handle,
            default_fb: output.fb_handle,
            src_x: output.x,
            src_y: output.y,
            width: output.width,
            height: output.height,
            use_fb2: None,
            use_prime: None,
            cache: Vec::new(),
            last_fb_key: None,
            vaapi_cache: Vec::new(),
            allow_vaapi_readback,
        }
    }

    /// Whether a frame is brought up to date tile by tile, rather than converted as a whole: the
    /// format can be copied directly, and the destination already holds a frame of the same size.
    pub open spec fn copies_incrementally(
        &self,
        dst_len: int,
        format: PixelFormat,
        with_tiles: bool,
    ) -> bool {
        with_tiles && copies_directly(format) && dst_len == self.width * self.height * 4
    }

    /// What a conversion of a mapped buffer to a frame of this output returns.
    pub open spec fn conversion(&self, format: PixelFormat, pitch: u32, raw: Seq<u8>) -> Result<
        (),
        ConvertError,
    > {
        conversion(
            format,
            raw.len() as int,
            self.width as int,
            self.height as int,
            pitch as int,
        )
    }

    /// The frame that is left in the destination when a mapped buffer is read. A buffer that
    /// cannot be converted leaves what was there.
    pub open spec fn frame_after_reading(
        &self,
        format: PixelFormat,
        pitch: u32,
        raw: Seq<u8>,
        before: Seq<u8>,
    ) -> Seq<u8> {
        if self.conversion(format, pitch, raw) is Ok {
            crate::kms::pixel_format::bgra_frame(
                format,
                raw,
                self.width as int,
                self.height as int,
                pitch as int,
            )
        } else {
            before
        }
    }

    /// What reading a mapped buffer returns: whether there is a new frame, or why it could not be
    /// converted.
    pub open spec fn result_of_reading(
        &self,
        format: PixelFormat,
        pitch: u32,
        raw: Seq<u8>,
        before: Seq<u8>,
        with_tiles: bool,
    ) -> Result<bool, ConvertError> {
        match self.conversion(format, pitch, raw) {
            Err(error) => Err(error),
            Ok(()) => if self.copies_incrementally(before.len() as int, format, with_tiles) {
                Ok(self.frame_after_reading(format, pitch, raw, before) != before)
            } else {
                Ok(true)
            },
        }
    }

    /// The marks that are left when a mapped buffer is read.
    pub open spec fn marks_after_reading(
        &self,
        format: PixelFormat,
        pitch: u32,
        raw: Seq<u8>,
        before: Seq<u8>,
        marks: Set<int>,
    ) -> Set<int> {
        if self.conversion(format, pitch, raw) is Err {
            marks
        } else if self.copies_incrementally(before.len() as int, format, true) {
            marks.union(
                crate::kms::pixel_format::differing_tiles(
                    before,
                    self.frame_after_reading(format, pitch, raw, before),
                    self.width as int,
                ),
            )
        } else {
            marks.union(crate::frame_diff::all_tiles(self.width as int, self.height as int))
        }
    }

    /// Writes the frame in a mapped buffer to `dst`. Copies only the tiles that changed, and marks
    /// them, where the format can be copied directly and `dst` already holds a frame of the same
    /// size; converts the whole frame otherwise, and marks every tile. Returns whether there is a
    /// new frame.
    pub fn convert_or_incremental(
        &self,
        dst: &mut Vec<u8>,
        raw: &[u8],
        format: PixelFormat,
        pitch: u32,
        dirty_tiles: Option<&mut DirtyTiles>,
    ) -> (result: Result<bool, ConvertError>)
        requires
            self.wf(),
            dirty_tiles is Some ==> self.tracks(&*dirty_tiles->0),
        ensures
            result == self.result_of_reading(
                format,
                pitch,
                raw@,
                old(dst)@,
                dirty_tiles is Some,
            ),
            final(dst)@ == self.frame_after_reading(format, pitch, raw@, old(dst)@),
            dirty_tiles is Some ==> self.tracks(&*final(dirty_tiles->0)),
            dirty_tiles is Some ==> final(dirty_tiles->0)@ == self.marks_after_reading(
                format,
                pitch,
                raw@,
                old(dst)@,
                (*dirty_tiles->0)@,
            ),
    {
        proof {
            self.lemma_size_fits();
        }
        let expected_size: usize = (self.width * self.height * 4) as usize;
        if let Some(tiles) = dirty_tiles {
            if is_direct_copy(format) && dst.len() == expected_size {
                if !frame_is_held(raw.len(), self.width, self.height, pitch) {
                    return Err(ConvertError::Truncated);
                }
                proof {
                    lemma_direct_frames_agree(
                        format,
                        raw@,
                        self.width as int,
                        self.height as int,
                        pitch as int,
                    );
                }
                let changed: bool = copy_rows_incremental(
                    dst,
                    raw,
                    self.width,
                    self.height,
                    pitch,
                    tiles,
                );
                return Ok(changed);
            }
            return self.convert_full(dst, raw, format, pitch, Some(tiles));
        }
        self.convert_full(dst, raw, format, pitch, None)
    }

    /// Converts the whole frame in a mapped buffer, and marks every tile.
    pub fn convert_full(
        &self,
        dst: &mut Vec<u8>,
        raw: &[u8],
        format: PixelFormat,
        pitch: u32,
        dirty_tiles: Option<&mut DirtyTiles>,
    ) -> (result: Result<bool, ConvertError>)
        requires
            self.wf(),
            dirty_tiles is Some ==> self.tracks(&*dirty_tiles->0),
        ensures
            result == (match self.conversion(format, pitch, raw@) {
                Ok(()) => Ok::<bool, ConvertError>(true),
                Err(error) => Err(error),
            }),
            final(dst)@ == self.frame_after_reading(format, pitch, raw@, old(dst)@),
            dirty_tiles is Some ==> self.tracks(&*final(dirty_tiles->0)),
            dirty_tiles is Some ==> final(dirty_tiles->0)@ == (if result is Err {
                (*dirty_tiles->0)@
            } else {
                (*dirty_tiles->0)@.union(
                    crate::frame_diff::all_tiles(self.width as int, self.height as int),
                )
            }),
    {
        match convert_to_bgra_into(dst, raw, self.width, self.height, pitch, format) {
            Err(error) => Err(error),
            Ok(()) => {
                if let Some(tiles) = dirty_tiles {
                    tiles.set_all();
                }
                Ok(true)
            },
        }
    }

    pub(crate) proof fn lemma_size_fits(&self)
        requires
            self.wf(),
        ensures
            0 <= self.width * self.height <= u32::MAX,
            self.height > 0 ==> self.width * 4 <= u32::MAX,
    {
        let w = self.width as int;
        let h = self.height as int;
        assert(0 <= w * h) by (nonlinear_arith)
            requires
                0 <= w,
                0 <= h,
        ;
        if h > 0 {
            assert(w <= w * h) by (nonlinear_arith)
                requires
                    0 <= w,
                    1 <= h,
            ;
        }
    }
}

/// Whether a buffer of `len` bytes with four bytes per pixel holds every pixel of the frame.
fn frame_is_held(len: usize, width: u32, height: u32, pitch: u32) -> (held: bool)
    ensures
        held == crate::kms::pixel_format::holds_frame(
            PixelFormat::Xrgb8888,
            len as int,
            width as int,
            height as int,
            pitch as int,
        ),
{
    crate::kms::pixel_format::check_holds_frame(len, width, height, pitch, 4)
}

/// The two formats that are copied directly hold the same frame.
proof fn lemma_direct_frames_agree(
    format: PixelFormat,
    raw: Seq<u8>,
    width: int,
    height: int,
    pitch: int,
)
    requires
        copies_directly(format),
    ensures
        crate::kms::pixel_format::bgra_frame(format, raw, width, height, pitch)
            == crate::kms::pixel_format::bgra_frame(
            PixelFormat::Xrgb8888,
            raw,
            width,
            height,
            pitch,
        ),
{
    assert(crate::kms::pixel_format::bgra_frame(format, raw, width, height, pitch)
        =~= crate::kms::pixel_format::bgra_frame(PixelFormat::Xrgb8888, raw, width, height, pitch));
}

} // verus!
