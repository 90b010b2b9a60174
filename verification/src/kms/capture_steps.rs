//! The steps of a capture: what the device's answer to one question leads to.

use crate::frame_diff::DirtyTiles;
use crate::kms::cpu_capture::CaptureError;
use crate::kms::cpu_capture::CaptureStep;
use crate::kms::cpu_capture::CachedBuffer;
use crate::kms::cpu_capture::Capturer;
use crate::kms::cpu_capture::MapRequest;
use crate::kms::cpu_capture::PlainFramebuffer;
use crate::kms::cpu_capture::PlanarFramebuffer;
use crate::kms::cpu_capture::VaapiCapture;
use crate::kms::cpu_capture::VaapiRequest;
use crate::kms::cpu_capture::MAX_CACHE_ENTRIES;
use crate::kms::fourcc::is_linear;
use crate::kms::fourcc::modifier_for_driver;
use crate::kms::fourcc::PixelFormat;
use crate::kms::pixel_format::replace_frame;
use vstd::prelude::*;

verus! {

/// `index` is the first place in the cache that holds the buffer.
pub open spec fn first_mapped(cache: Seq<CachedBuffer>, gem: u32, index: int) -> bool {
    &&& 0 <= index < cache.len()
    &&& cache[index].gem_handle == gem
    &&& forall|j: int| 0 <= j < index ==> (#[trigger] cache[j]).gem_handle != gem
}

/// The cache does not hold the buffer.
pub open spec fn not_mapped(cache: Seq<CachedBuffer>, gem: u32) -> bool {
    forall|j: int| 0 <= j < cache.len() ==> (#[trigger] cache[j]).gem_handle != gem
}

/// `index` is the first place in the video driver's cache that holds the buffer.
pub open spec fn first_opened(cache: Seq<VaapiCapture>, gem: u32, index: int) -> bool {
    &&& 0 <= index < cache.len()
    &&& cache[index].gem_handle == gem
    &&& forall|j: int| 0 <= j < index ==> (#[trigger] cache[j]).gem_handle != gem
}

/// The video driver's cache does not hold the buffer.
pub open spec fn not_opened(cache: Seq<VaapiCapture>, gem: u32) -> bool {
    forall|j: int| 0 <= j < cache.len() ==> (#[trigger] cache[j]).gem_handle != gem
}

/// Number of buffers before the first one that is missing, counted from `from`.
pub open spec fn planes_from(buffers: Seq<Option<u32>>, from: int) -> int
    decreases buffers.len() - from,
{
    if 0 <= from < buffers.len() && buffers[from] is Some {
        1 + planes_from(buffers, from + 1)
    } else {
        0
    }
}

/// A sequence with one more item at its end, which has lost its oldest item if it was full.
pub open spec fn pushed_bounded<T>(items: Seq<T>, item: T) -> Seq<T> {
    if items.len() >= MAX_CACHE_ENTRIES {
        items.remove(0).push(item)
    } else {
        items.push(item)
    }
}

/// How far a step is from the end of a capture.
pub open spec fn rank(step: CaptureStep) -> int {
    match step {
        CaptureStep::AskGemFb2 { fb } => 11,
        CaptureStep::AskGemFb1 { fb } => 10,
        CaptureStep::AskFb2 { fb } => 9,
        CaptureStep::MapPrime { request, planar } => if planar is Some {
            8
        } else {
            3
        },
        CaptureStep::MapDumb { request, planar } => if planar is Some {
            7
        } else {
            2
        },
        CaptureStep::OpenVaapi { fb, driver } => 6,
        CaptureStep::ReadVaapi { index, fresh } => 5,
        CaptureStep::AskFb1 { fb } => 4,
        CaptureStep::ReadMapped { index } => 1,
        CaptureStep::ReadNew { entry } => 1,
        CaptureStep::Finished { captured } => 0,
        CaptureStep::Failed { error } => 0,
    }
}

impl Capturer {
    /// Whether the ways of asking and of mapping that were known before are still the same.
    pub open spec fn keeps_choices(&self, before: Capturer) -> bool {
        &&& before.use_fb2 matches Some(choice) ==> self.use_fb2 == Some(choice)
        &&& before.use_prime matches Some(choice) ==> self.use_prime == Some(choice)
    }

    /// Whether `step` can come next in a capture in this state.
    pub open spec fn can_come(&self, step: CaptureStep) -> bool {
        match step {
            CaptureStep::AskGemFb2 { fb } => self.use_fb2 != Some(false),
            CaptureStep::AskGemFb1 { fb } => self.use_fb2 != Some(true),
            CaptureStep::ReadMapped { index } => index < self.cache@.len(),
            CaptureStep::ReadVaapi { index, fresh } => index < self.vaapi_cache@.len() && (
            fresh is Some ==> self.use_fb2 != Some(false)),
            CaptureStep::AskFb2 { fb } => self.use_fb2 != Some(false),
            CaptureStep::AskFb1 { fb } => self.use_fb2 != Some(true),
            CaptureStep::MapPrime { request, planar } => self.use_prime != Some(false)
                && self.can_map(planar),
            CaptureStep::MapDumb { request, planar } => self.use_prime != Some(true)
                && self.can_map(planar),
            CaptureStep::OpenVaapi { fb, driver } => self.use_fb2 != Some(false),
            CaptureStep::ReadNew { entry } => true,
            CaptureStep::Finished { captured } => true,
            CaptureStep::Failed { error } => true,
        }
    }

    /// Whether a framebuffer that was asked for with its planes, or without, can be mapped.
    pub open spec fn can_map(&self, planar: Option<PlanarFramebuffer>) -> bool {
        if planar is Some {
            self.use_fb2 != Some(false)
        } else {
            self.use_fb2 != Some(true)
        }
    }

    /// Where a buffer's mapping cannot come from planes: give up if planes have worked before, ask
    /// without planes otherwise.
    pub open spec fn step_after_fb2_failure(&self, fb: u32, error: CaptureError) -> CaptureStep {
        if self.use_fb2 == Some(true) {
            CaptureStep::Failed { error }
        } else {
            CaptureStep::AskFb1 { fb }
        }
    }

    /// The first way to map a buffer: export it, unless that is known not to work.
    pub open spec fn first_map_step(
        &self,
        request: MapRequest,
        planar: Option<PlanarFramebuffer>,
    ) -> CaptureStep {
        if self.use_prime == Some(false) {
            CaptureStep::MapDumb { request, planar }
        } else {
            CaptureStep::MapPrime { request, planar }
        }
    }

    /// What is asked of the video driver to open a framebuffer.
    pub open spec fn driver_request(&self, gem: u32, planar: PlanarFramebuffer) -> VaapiRequest {
        VaapiRequest {
            gem_handle: gem,
            src_x: self.src_x,
            src_y: self.src_y,
            width: self.width,
            height: self.height,
            fb_width: planar.width,
            fb_height: planar.height,
            fourcc: planar.fourcc,
            modifier: crate::kms::fourcc::driver_modifier(planar.modifier),
            pitches: planar.pitches,
            offsets: planar.offsets,
            num_planes: planes_from(planar.buffers@, 0) as u32,
        }
    }

    /// Where a buffer could not be mapped at all: let the video driver open it, if it has planes
    /// and that is allowed.
    pub open spec fn step_after_map_failure(
        &self,
        request: MapRequest,
        planar: Option<PlanarFramebuffer>,
        error: CaptureError,
    ) -> CaptureStep {
        match planar {
            None => CaptureStep::Failed { error },
            Some(info) => if self.allow_vaapi_readback {
                CaptureStep::OpenVaapi {
                    fb: request.fb_key,
                    driver: self.driver_request(request.gem_handle, info),
                }
            } else {
                self.step_after_fb2_failure(request.fb_key, error)
            },
        }
    }

    /// The cache entry of a buffer that was mapped.
    pub open spec fn entry_of(request: MapRequest, gem: u32, mapping: u64) -> CachedBuffer {
        CachedBuffer {
            fb_key: request.fb_key,
            gem_handle: gem,
            size: request.size,
            format: request.format,
            pitch: request.pitch,
            mapping,
        }
    }

    /// What is to be mapped of a framebuffer, or why it cannot be.
    pub open spec fn planar_request(
        &self,
        fb: u32,
        info: PlanarFramebuffer,
    ) -> Result<MapRequest, CaptureError> {
        match info.modifier {
            Some(modifier) if modifier != 0 => Err(CaptureError::NonLinear(modifier)),
            _ => match info.buffers@[0] {
                None => Err(CaptureError::NoBufferInFb2),
                Some(gem) => Ok(
                    MapRequest {
                        fb_key: fb,
                        gem_handle: gem,
                        size: (self.height * info.pitches@[0]) as u64,
                        format: crate::kms::fourcc::format_of_code(info.fourcc),
                        pitch: info.pitches@[0],
                    },
                ),
            },
        }
    }

    /// What is to be mapped of a framebuffer without planes, or why it cannot be.
    pub open spec fn plain_request(
        &self,
        fb: u32,
        info: PlainFramebuffer,
    ) -> Result<MapRequest, CaptureError> {
        match info.buffer {
            None => Err(CaptureError::NoBufferInFb1),
            Some(gem) => match crate::kms::fourcc::format_of_depth(info.bpp, info.depth) {
                None => Err(CaptureError::UnsupportedDepth(info.bpp, info.depth)),
                Some(format) => Ok(
                    MapRequest {
                        fb_key: fb,
                        gem_handle: gem,
                        size: (self.height * info.pitch) as u64,
                        format,
                        pitch: info.pitch,
                    },
                ),
            },
        }
    }

    /// The framebuffer to capture: the one that the output shows now, or else the one that it
    /// showed first.
    pub open spec fn shown_framebuffer(&self, current_fb: Option<u32>) -> u32 {
        match current_fb {
            Some(fb) => fb,
            None => self.default_fb,
        }
    }

    /// The framebuffer to capture: the one that the output shows now, or else the one that it
    /// showed first.
    pub fn framebuffer(&self, current_fb: Option<u32>) -> (fb: u32)
        ensures
            fb == self.shown_framebuffer(current_fb),
    {
        match current_fb {
            Some(fb) => fb,
            None => self.default_fb,
        }
    }

    /// Whether a capture is skipped: the framebuffer was already captured, and it is not forced.
    pub open spec fn skips(&self, current_fb: Option<u32>, force: bool) -> bool {
        !force && self.last_fb_key == Some(self.shown_framebuffer(current_fb))
    }

    /// The first step of a capture.
    pub open spec fn start_step(&self, current_fb: Option<u32>, force: bool) -> CaptureStep {
        let fb = self.shown_framebuffer(current_fb);
        if self.skips(current_fb, force) {
            CaptureStep::Finished { captured: false }
        } else if self.use_fb2 == Some(false) {
            CaptureStep::AskGemFb1 { fb }
        } else {
            CaptureStep::AskGemFb2 { fb }
        }
    }

    /// The capturer once a capture has started.
    pub open spec fn after_start(&self, current_fb: Option<u32>, force: bool) -> Capturer {
        if self.skips(current_fb, force) {
            *self
        } else {
            Capturer { last_fb_key: Some(self.shown_framebuffer(current_fb)), ..*self }
        }
    }

    /// Whether some answer of the device to `step` leads this capturer to `after` and `next`.
    /// `with_tiles` tells whether tiles are kept.
    pub open spec fn leads_to(
        &self,
        step: CaptureStep,
        after: Capturer,
        next: CaptureStep,
        with_tiles: bool,
    ) -> bool {
        match step {
            CaptureStep::AskGemFb2 { fb } => {
                ||| self.locates(fb, after, next)
                ||| after == *self && next == self.step_without_gem(fb)
            },
            CaptureStep::AskGemFb1 { fb } => {
                ||| self.locates(fb, after, next)
                ||| after == *self && (next == (CaptureStep::Failed {
                    error: CaptureError::Fb1GemQuery,
                }) || next == (CaptureStep::Failed { error: CaptureError::NoGemFromFb1 }))
            },
            CaptureStep::AskFb2 { fb } => after == *self && exists|
                info: Option<PlanarFramebuffer>,
            |
                next == #[trigger] self.step_after_fb2(fb, info),
            CaptureStep::AskFb1 { fb } => after == *self && exists|info: Option<PlainFramebuffer>|
                next == #[trigger] self.step_after_fb1(fb, info),
            CaptureStep::MapPrime { request, planar } => {
                ||| after == (Capturer {
                    use_prime: Some(true),
                    use_fb2: Some(planar is Some),
                    ..*self
                }) && exists|id: u64|
                    next == (CaptureStep::ReadNew {
                        entry: #[trigger] Capturer::entry_of(request, request.gem_handle, id),
                    })
                ||| after == *self && next == self.step_without_prime(request, planar)
            },
            CaptureStep::MapDumb { request, planar } => {
                ||| after == (Capturer {
                    use_prime: Some(false),
                    use_fb2: Some(planar is Some),
                    ..*self
                }) && exists|gem: u32, id: u64|
                    next == (CaptureStep::ReadNew {
                        entry: #[trigger] Capturer::entry_of(request, gem, id),
                    })
                ||| after == *self && next == self.step_after_map_failure(
                    request,
                    planar,
                    CaptureError::DumbMap,
                )
            },
            CaptureStep::OpenVaapi { fb, driver } => {
                ||| after == *self && next == self.step_after_fb2_failure(
                    fb,
                    CaptureError::VaapiOpen,
                )
                ||| {
                    &&& after == (Capturer { vaapi_cache: after.vaapi_cache, ..*self })
                    &&& after.vaapi_cache@ == pushed_bounded(
                        self.vaapi_cache@,
                        after.vaapi_cache@.last(),
                    )
                    &&& next == (CaptureStep::ReadVaapi {
                        index: (after.vaapi_cache@.len() - 1) as usize,
                        fresh: Some(fb),
                    })
                }
            },
            CaptureStep::ReadVaapi { index, fresh } => exists|
                read: Seq<u8>,
                ok: bool,
                before: Seq<u8>,
            |
                {
                    &&& next == #[trigger] self.step_after_readback(
                        fresh,
                        read,
                        ok,
                        before,
                        with_tiles,
                    )
                    &&& after == (Capturer {
                        vaapi_cache: after.vaapi_cache,
                        use_fb2: if ok && fresh is Some {
                            Some(true)
                        } else {
                            self.use_fb2
                        },
                        ..*self
                    })
                },
            CaptureStep::ReadMapped { index } => after == *self && exists|
                raw: Seq<u8>,
                before: Seq<u8>,
            |
                next == Capturer::step_after_reading(
                    #[trigger] self.result_of_reading(
                        self.cache@[index as int].format,
                        self.cache@[index as int].pitch,
                        raw,
                        before,
                        with_tiles,
                    ),
                ),
            CaptureStep::ReadNew { entry } => {
                &&& after == (Capturer { cache: after.cache, ..*self })
                &&& after.cache@ == pushed_bounded(self.cache@, entry)
                &&& exists|raw: Seq<u8>, before: Seq<u8>|
                    next == Capturer::step_after_reading(
                        #[trigger] self.result_of_reading(
                            entry.format,
                            entry.pitch,
                            raw,
                            before,
                            with_tiles,
                        ),
                    )
            },
            CaptureStep::Finished { captured } => false,
            CaptureStep::Failed { error } => false,
        }
    }

    /// Where the planes of the framebuffer name no buffer: give up if planes have worked before,
    /// ask without planes otherwise.
    pub open spec fn step_without_gem(&self, fb: u32) -> CaptureStep {
        if self.use_fb2 == Some(true) {
            CaptureStep::Failed { error: CaptureError::Fb2GemQuery }
        } else {
            CaptureStep::AskGemFb1 { fb }
        }
    }

    /// What comes after the answer on a framebuffer with its planes.
    pub open spec fn step_after_fb2(
        &self,
        fb: u32,
        info: Option<PlanarFramebuffer>,
    ) -> CaptureStep {
        match info {
            None => self.step_after_fb2_failure(fb, CaptureError::Fb2Query),
            Some(planar) => match self.planar_request(fb, planar) {
                Err(error) => self.step_after_fb2_failure(fb, error),
                Ok(request) => self.first_map_step(request, Some(planar)),
            },
        }
    }

    /// What comes after the answer on a framebuffer without planes.
    pub open spec fn step_after_fb1(&self, fb: u32, info: Option<PlainFramebuffer>) -> CaptureStep {
        match info {
            None => CaptureStep::Failed { error: CaptureError::Fb1Query },
            Some(plain) => match self.plain_request(fb, plain) {
                Err(error) => CaptureStep::Failed { error },
                Ok(request) => self.first_map_step(request, None),
            },
        }
    }

    /// Where a buffer could not be exported: give up on mapping it if exporting has worked before,
    /// reopen it otherwise.
    pub open spec fn step_without_prime(
        &self,
        request: MapRequest,
        planar: Option<PlanarFramebuffer>,
    ) -> CaptureStep {
        if self.use_prime == Some(true) {
            self.step_after_map_failure(request, planar, CaptureError::PrimeMap)
        } else {
            CaptureStep::MapDumb { request, planar }
        }
    }

    /// Starts a capture. `current_fb` is the framebuffer that the output shows now, as far as the
    /// device tells. A framebuffer that was already captured is not captured again, unless
    /// `force` is set.
    pub fn capture_into(&mut self, current_fb: Option<u32>, force: bool) -> (step: CaptureStep)
        ensures
            final(self).keeps_choices(*old(self)),
            step == old(self).start_step(current_fb, force),
            *final(self) == old(self).after_start(current_fb, force),
            final(self).can_come(step),
    {
        let fb: u32 = self.framebuffer(current_fb);
        if !force && self.last_fb_key == Some(fb) {
            return CaptureStep::Finished { captured: false };
        }
        self.last_fb_key = Some(fb);
        match self.use_fb2 {
            Some(false) => CaptureStep::AskGemFb1 { fb },
            _ => CaptureStep::AskGemFb2 { fb },
        }
    }

    /// The frame of a one-off capture: `dst`, if the capture finished with a new frame.
    pub fn capture(captured: bool, dst: Vec<u8>) -> (frame: Option<Vec<u8>>)
        ensures
            frame == (if captured {
                Some(dst)
            } else {
                None
            }),
    {
        if captured {
            Some(dst)
        } else {
            None
        }
    }

    /// Answer to [`CaptureStep::AskGemFb2`]: the first buffer of the framebuffer, if the device
    /// told one.
    pub fn on_gem_fb2(&mut self, fb: u32, gem: Option<u32>) -> (step: CaptureStep)
        requires
            old(self).wf(),
            old(self).can_come(CaptureStep::AskGemFb2 { fb }),
        ensures
            final(self).keeps_choices(*old(self)),
            rank(step) < rank(CaptureStep::AskGemFb2 { fb }),
            gem matches Some(found) ==> old(self).located(fb, found, *final(self), step),
            gem is None ==> *final(self) == *old(self) && step == old(self).step_without_gem(fb),
            forall|tiles: bool| #[trigger]
                old(self).leads_to(CaptureStep::AskGemFb2 { fb }, *final(self), step, tiles),
            final(self).wf(),
            final(self).can_come(step),
    {
        match gem {
            Some(found) => self.locate(fb, found),
            None => match self.use_fb2 {
                Some(true) => CaptureStep::Failed { error: CaptureError::Fb2GemQuery },
                _ => CaptureStep::AskGemFb1 { fb },
            },
        }
    }

    /// Answer to [`CaptureStep::AskGemFb1`]: `None` if the device could not tell, and otherwise the
    /// buffer that it told, if any.
    pub fn on_gem_fb1(&mut self, fb: u32, gem: Option<Option<u32>>) -> (step: CaptureStep)
        requires
            old(self).wf(),
            old(self).can_come(CaptureStep::AskGemFb1 { fb }),
        ensures
            final(self).keeps_choices(*old(self)),
            rank(step) < rank(CaptureStep::AskGemFb1 { fb }),
            gem matches Some(Some(found)) ==> old(self).located(fb, found, *final(self), step),
            gem is None ==> *final(self) == *old(self) && step == (CaptureStep::Failed {
                error: CaptureError::Fb1GemQuery,
            }),
            gem == Some(None::<u32>) ==> *final(self) == *old(self) && step == (
            CaptureStep::Failed { error: CaptureError::NoGemFromFb1 }),
            forall|tiles: bool| #[trigger]
                old(self).leads_to(CaptureStep::AskGemFb1 { fb }, *final(self), step, tiles),
            final(self).wf(),
            final(self).can_come(step),
    {
        match gem {
            None => CaptureStep::Failed { error: CaptureError::Fb1GemQuery },
            Some(None) => CaptureStep::Failed { error: CaptureError::NoGemFromFb1 },
            Some(Some(found)) => self.locate(fb, found),
        }
    }

    /// How a capture goes on once the buffer is known: a buffer that the video driver has open is
    /// read back, a mapped one is read and takes the framebuffer's name, and an unknown one is
    /// asked for.
    pub open spec fn located(&self, fb: u32, gem: u32, after: Capturer, step: CaptureStep) -> bool {
        match step {
            CaptureStep::ReadVaapi { index, fresh } => {
                &&& first_opened(self.vaapi_cache@, gem, index as int)
                &&& fresh is None
                &&& after == *self
            },
            CaptureStep::ReadMapped { index } => {
                &&& not_opened(self.vaapi_cache@, gem)
                &&& first_mapped(self.cache@, gem, index as int)
                &&& after == (Capturer { cache: after.cache, ..*self })
                &&& after.cache@ == self.cache@.update(
                    index as int,
                    CachedBuffer { fb_key: fb, ..self.cache@[index as int] },
                )
            },
            _ => {
                &&& not_opened(self.vaapi_cache@, gem)
                &&& not_mapped(self.cache@, gem)
                &&& after == *self
                &&& step == (if self.use_fb2 == Some(false) {
                    CaptureStep::AskFb1 { fb }
                } else {
                    CaptureStep::AskFb2 { fb }
                })
            },
        }
    }

    /// Whether a capture goes on so for some buffer of the framebuffer.
    pub open spec fn locates(&self, fb: u32, after: Capturer, step: CaptureStep) -> bool {
        exists|gem: u32| #[trigger] self.located(fb, gem, after, step)
    }

    fn locate(&mut self, fb: u32, gem: u32) -> (step: CaptureStep)
        requires
            old(self).wf(),
        ensures
            old(self).located(fb, gem, *final(self), step),
            final(self).wf(),
            final(self).can_come(step),
    {
        let mut index: usize = 0;
        while index < self.vaapi_cache.len()
            invariant
                index <= self.vaapi_cache@.len(),
                *self == *old(self),
                old(self).wf(),
                forall|j: int|
                    0 <= j < index ==> (#[trigger] self.vaapi_cache@[j]).gem_handle != gem,
            decreases self.vaapi_cache@.len() - index,
        {
            if self.vaapi_cache[index].gem_handle == gem {
                return CaptureStep::ReadVaapi { index, fresh: None };
            }
            index += 1;
        }
        index = 0;
        while index < self.cache.len()
            invariant
                index <= self.cache@.len(),
                *self == *old(self),
                old(self).wf(),
                not_opened(self.vaapi_cache@, gem),
                forall|j: int| 0 <= j < index ==> (#[trigger] self.cache@[j]).gem_handle != gem,
            decreases self.cache@.len() - index,
        {
            if self.cache[index].gem_handle == gem {
                let mut entry: CachedBuffer = self.cache[index];
                entry.fb_key = fb;
                self.cache[index] = entry;
                return CaptureStep::ReadMapped { index };
            }
            index += 1;
        }
        match self.use_fb2 {
            Some(false) => CaptureStep::AskFb1 { fb },
            _ => CaptureStep::AskFb2 { fb },
        }
    }

    /// Answer to [`CaptureStep::AskFb2`]: the framebuffer with its planes, if the device told.
    pub fn on_fb2(&self, fb: u32, info: Option<PlanarFramebuffer>) -> (step: CaptureStep)
        requires
            self.can_come(CaptureStep::AskFb2 { fb }),
        ensures
            rank(step) < rank(CaptureStep::AskFb2 { fb }),
            step == self.step_after_fb2(fb, info),
            forall|tiles: bool| #[trigger]
                self.leads_to(CaptureStep::AskFb2 { fb }, *self, step, tiles),
            self.can_come(step),
    {
        let planar: PlanarFramebuffer = match info {
            None => return self.fb2_failed(fb, CaptureError::Fb2Query),
            Some(planar) => planar,
        };
        if !is_linear(planar.modifier) {
            let modifier: u64 = match planar.modifier {
                Some(modifier) => modifier,
                None => 0,
            };
            return self.fb2_failed(fb, CaptureError::NonLinear(modifier));
        }
        let gem: u32 = match planar.buffers[0] {
            None => return self.fb2_failed(fb, CaptureError::NoBufferInFb2),
            Some(gem) => gem,
        };
        let pitch: u32 = planar.pitches[0];
        let size: u64 = map_size(self.height, pitch);
        let format: PixelFormat = PixelFormat::from_fourcc(planar.fourcc);
        let request = MapRequest { fb_key: fb, gem_handle: gem, size, format, pitch };
        self.map_first(request, Some(planar))
    }

    /// Answer to [`CaptureStep::AskFb1`]: the framebuffer, if the device told.
    pub fn on_fb1(&self, fb: u32, info: Option<PlainFramebuffer>) -> (step: CaptureStep)
        requires
            self.can_come(CaptureStep::AskFb1 { fb }),
        ensures
            rank(step) < rank(CaptureStep::AskFb1 { fb }),
            step == self.step_after_fb1(fb, info),
            forall|tiles: bool| #[trigger]
                self.leads_to(CaptureStep::AskFb1 { fb }, *self, step, tiles),
            self.can_come(step),
    {
        let plain: PlainFramebuffer = match info {
            None => return CaptureStep::Failed { error: CaptureError::Fb1Query },
            Some(plain) => plain,
        };
        let gem: u32 = match plain.buffer {
            None => return CaptureStep::Failed { error: CaptureError::NoBufferInFb1 },
            Some(gem) => gem,
        };
        let format: PixelFormat = match PixelFormat::from_depth(plain.bpp, plain.depth) {
            None => {
                return CaptureStep::Failed {
                    error: CaptureError::UnsupportedDepth(plain.bpp, plain.depth),
                };
            },
            Some(format) => format,
        };
        let size: u64 = map_size(self.height, plain.pitch);
        let request = MapRequest {
            fb_key: fb,
            gem_handle: gem,
            size,
            format,
            pitch: plain.pitch,
        };
        self.map_first(request, None)
    }

    fn fb2_failed(&self, fb: u32, error: CaptureError) -> (step: CaptureStep)
        ensures
            step == self.step_after_fb2_failure(fb, error),
            self.can_come(step),
    {
        match self.use_fb2 {
            Some(true) => CaptureStep::Failed { error },
            _ => CaptureStep::AskFb1 { fb },
        }
    }

    fn map_first(&self, request: MapRequest, planar: Option<PlanarFramebuffer>) -> (step:
        CaptureStep)
        requires
            self.can_map(planar),
        ensures
            step == self.first_map_step(request, planar),
            self.can_come(step),
    {
        match self.use_prime {
            Some(false) => CaptureStep::MapDumb { request, planar },
            _ => CaptureStep::MapPrime { request, planar },
        }
    }

    /// Answer to [`CaptureStep::MapPrime`]: the mapping, if the buffer could be exported and
    /// mapped.
    pub fn on_prime(
        &mut self,
        request: MapRequest,
        planar: Option<PlanarFramebuffer>,
        mapping: Option<u64>,
    ) -> (step: CaptureStep)
        requires
            old(self).wf(),
            old(self).can_come(CaptureStep::MapPrime { request, planar }),
        ensures
            final(self).keeps_choices(*old(self)),
            rank(step) < rank(CaptureStep::MapPrime { request, planar }),
            mapping matches Some(id) ==> step == (CaptureStep::ReadNew {
                entry: Capturer::entry_of(request, request.gem_handle, id),
            }) && *final(self) == (Capturer {
                use_prime: Some(true),
                use_fb2: Some(planar is Some),
                ..*old(self)
            }),
            mapping is None ==> *final(self) == *old(self) && step
                == old(self).step_without_prime(request, planar),
            forall|tiles: bool| #[trigger]
                old(self).leads_to(
                    CaptureStep::MapPrime { request, planar },
                    *final(self),
                    step,
                    tiles,
                ),
            final(self).wf(),
            final(self).can_come(step),
    {
        match mapping {
            Some(id) => {
                self.use_prime = Some(true);
                self.use_fb2 = Some(planar.is_some());
                CaptureStep::ReadNew { entry: Self::entry(request, request.gem_handle, id) }
            },
            None => match self.use_prime {
                Some(true) => self.map_failed(request, planar, CaptureError::PrimeMap),
                _ => CaptureStep::MapDumb { request, planar },
            },
        }
    }

    /// Answer to [`CaptureStep::MapDumb`]: the mapping and the handle under which the buffer was
    /// reopened, if that worked.
    pub fn on_dumb(
        &mut self,
        request: MapRequest,
        planar: Option<PlanarFramebuffer>,
        mapping: Option<(u64, u32)>,
    ) -> (step: CaptureStep)
        requires
            old(self).wf(),
            old(self).can_come(CaptureStep::MapDumb { request, planar }),
        ensures
            final(self).keeps_choices(*old(self)),
            rank(step) < rank(CaptureStep::MapDumb { request, planar }),
            mapping matches Some(found) ==> step == (CaptureStep::ReadNew {
                entry: Capturer::entry_of(request, found.1, found.0),
            }) && *final(self) == (Capturer {
                use_prime: Some(false),
                use_fb2: Some(planar is Some),
                ..*old(self)
            }),
            mapping is None ==> *final(self) == *old(self) && step == old(self).step_after_map_failure(
                request,
                planar,
                CaptureError::DumbMap,
            ),
            forall|tiles: bool| #[trigger]
                old(self).leads_to(
                    CaptureStep::MapDumb { request, planar },
                    *final(self),
                    step,
                    tiles,
                ),
            final(self).wf(),
            final(self).can_come(step),
    {
        match mapping {
            Some((id, reopened)) => {
                self.use_prime = Some(false);
                self.use_fb2 = Some(planar.is_some());
                CaptureStep::ReadNew { entry: Self::entry(request, reopened, id) }
            },
            None => self.map_failed(request, planar, CaptureError::DumbMap),
        }
    }

    fn entry(request: MapRequest, gem: u32, mapping: u64) -> (entry: CachedBuffer)
        ensures
            entry == Capturer::entry_of(request, gem, mapping),
    {
        CachedBuffer {
            fb_key: request.fb_key,
            gem_handle: gem,
            size: request.size,
            format: request.format,
            pitch: request.pitch,
            mapping,
        }
    }

    fn map_failed(
        &self,
        request: MapRequest,
        planar: Option<PlanarFramebuffer>,
        error: CaptureError,
    ) -> (step: CaptureStep)
        requires
            self.can_map(planar),
        ensures
            step == self.step_after_map_failure(request, planar, error),
            self.can_come(step),
    {
        let info: PlanarFramebuffer = match planar {
            None => return CaptureStep::Failed { error },
            Some(info) => info,
        };
        if !self.allow_vaapi_readback {
            return self.fb2_failed(request.fb_key, error);
        }
        let driver: VaapiRequest = self.vaapi_request(request.gem_handle, &info);
        CaptureStep::OpenVaapi { fb: request.fb_key, driver }
    }

    /// Puts together what is asked of the video driver to open a framebuffer.
    pub fn vaapi_request(&self, gem: u32, planar: &PlanarFramebuffer) -> (request: VaapiRequest)
        ensures
            request == self.driver_request(gem, *planar),
    {
        VaapiRequest {
            gem_handle: gem,
            src_x: self.src_x,
            src_y: self.src_y,
            width: self.width,
            height: self.height,
            fb_width: planar.width,
            fb_height: planar.height,
            fourcc: planar.fourcc,
            modifier: modifier_for_driver(planar.modifier),
            pitches: planar.pitches,
            offsets: planar.offsets,
            num_planes: leading_planes(&planar.buffers),
        }
    }

    /// Answer to [`CaptureStep::OpenVaapi`]: the driver's context, if it could open the buffer.
    /// Gives the next step, and the context of the buffer that had to make room, if any.
    pub fn on_vaapi_opened(&mut self, fb: u32, driver: VaapiRequest, context: Option<u64>) -> (out:
        (CaptureStep, Option<u64>))
        requires
            old(self).wf(),
            old(self).can_come(CaptureStep::OpenVaapi { fb, driver }),
        ensures
            final(self).keeps_choices(*old(self)),
            rank(out.0) < rank(CaptureStep::OpenVaapi { fb, driver }),
            context is None ==> *final(self) == *old(self) && out.0 == old(self).step_after_fb2_failure(fb, CaptureError::VaapiOpen) && out.1 is None,
            context matches Some(id) ==> {
                let opened = final(self).vaapi_cache@.last();
                &&& opened.gem_handle == driver.gem_handle
                &&& opened.context == id
                &&& opened.scratch@.len() == 0
                &&& final(self).vaapi_cache@ == pushed_bounded(old(self).vaapi_cache@, opened)
                &&& *final(self) == (Capturer {
                    vaapi_cache: final(self).vaapi_cache,
                    ..*old(self)
                })
                &&& out.0 == (CaptureStep::ReadVaapi {
                    index: (final(self).vaapi_cache@.len() - 1) as usize,
                    fresh: Some(fb),
                })
                &&& out.1 == (if old(self).vaapi_cache@.len() >= MAX_CACHE_ENTRIES {
                    Some(old(self).vaapi_cache@[0].context)
                } else {
                    None
                })
            },
            forall|tiles: bool| #[trigger]
                old(self).leads_to(
                    CaptureStep::OpenVaapi { fb, driver },
                    *final(self),
                    out.0,
                    tiles,
                ),
            final(self).wf(),
            final(self).can_come(out.0),
    {
        let id: u64 = match context {
            None => return (self.fb2_failed(fb, CaptureError::VaapiOpen), None),
            Some(id) => id,
        };
        let mut evicted: Option<u64> = None;
        if self.vaapi_cache.len() >= MAX_CACHE_ENTRIES {
            let oldest: VaapiCapture = self.vaapi_cache.remove(0);
            evicted = Some(oldest.context);
        }
        self.vaapi_cache.push(
            VaapiCapture { gem_handle: driver.gem_handle, context: id, scratch: Vec::new() },
        );
        let index: usize = self.vaapi_cache.len() - 1;
        (CaptureStep::ReadVaapi { index, fresh: Some(fb) }, evicted)
    }

    /// The bytes of a frame of this output.
    pub open spec fn frame_size(&self) -> int {
        self.width * self.height * 4
    }

    /// Takes out the buffer that the video driver writes the frame to. It is handed back with
    /// [`Capturer::on_vaapi_frame`].
    pub fn take_scratch(&mut self, index: usize) -> (scratch: Vec<u8>)
        requires
            old(self).wf(),
            index < old(self).vaapi_cache@.len(),
        ensures
            scratch@ == resized(
                old(self).vaapi_cache@[index as int].scratch@,
                old(self).frame_size(),
            ),
            *final(self) == (Capturer { vaapi_cache: final(self).vaapi_cache, ..*old(self) }),
            final(self).vaapi_cache@.len() == old(self).vaapi_cache@.len(),
            forall|j: int|
                0 <= j < old(self).vaapi_cache@.len() && j != index ==> #[trigger] final(self).vaapi_cache@[j] == old(self).vaapi_cache@[j],
            final(self).vaapi_cache@[index as int].gem_handle == old(self).vaapi_cache@[index as int].gem_handle,
            final(self).vaapi_cache@[index as int].context == old(self).vaapi_cache@[index as int].context,
            final(self).vaapi_cache@[index as int].scratch@.len() == 0,
            final(self).wf(),
    {
        proof {
            self.lemma_size_fits();
        }
        let required: usize = (self.width * self.height * 4) as usize;
        let gem_handle: u32 = self.vaapi_cache[index].gem_handle;
        let context: u64 = self.vaapi_cache[index].context;
        let emptied = VaapiCapture { gem_handle, context, scratch: Vec::new() };
        let ghost cache = self.vaapi_cache@;
        let taken: VaapiCapture = self.vaapi_cache.remove(index);
        self.vaapi_cache.insert(index, emptied);
        let mut scratch: Vec<u8> = taken.scratch;
        let ghost before = scratch@;
        if scratch.len() != required {
            scratch.resize(required, 0);
        }
        assert(scratch@ =~= resized(before, required as int)) by {
            if required > before.len() {
                assert forall|i: int| 0 <= i < before.len() implies scratch@[i] == before[i] by {
                    assert(scratch@.subrange(0, before.len() as int)[i] == scratch@[i]);
                }
            }
        }
        scratch
    }

    /// The marks that are left when the video driver has read the frame `read` back over `before`.
    pub open spec fn marks_after_readback(
        &self,
        read: Seq<u8>,
        before: Seq<u8>,
        marks: Set<int>,
    ) -> Set<int> {
        crate::kms::pixel_format::marks_after_replacing(
            before,
            read,
            self.width as int,
            self.height as int,
            marks,
        )
    }

    /// What comes after the video driver has read the frame `read` back over `before`, or could
    /// not.
    pub open spec fn step_after_readback(
        &self,
        fresh: Option<u32>,
        read: Seq<u8>,
        ok: bool,
        before: Seq<u8>,
        with_tiles: bool,
    ) -> CaptureStep {
        if ok {
            CaptureStep::Finished {
                captured: crate::kms::pixel_format::is_new_frame(before, read, with_tiles),
            }
        } else {
            match fresh {
                None => CaptureStep::Failed { error: CaptureError::VaapiCapture },
                Some(fb) => self.step_after_fb2_failure(fb, CaptureError::VaapiCapture),
            }
        }
    }

    /// Answer to [`CaptureStep::ReadVaapi`]: the buffer that the video driver wrote the frame to,
    /// and whether it could. Brings `dst` up to date tile by tile, where it already holds a frame
    /// of the same size and tiles are kept; replaces it otherwise, and marks every tile.
    pub fn on_vaapi_frame(
        &mut self,
        index: usize,
        fresh: Option<u32>,
        scratch: Vec<u8>,
        ok: bool,
        dst: &mut Vec<u8>,
        dirty_tiles: Option<&mut DirtyTiles>,
    ) -> (step: CaptureStep)
        requires
            old(self).wf(),
            old(self).can_come(CaptureStep::ReadVaapi { index, fresh }),
            scratch@.len() == old(self).frame_size(),
            dirty_tiles is Some ==> old(self).tracks(&*dirty_tiles->0),
        ensures
            final(self).keeps_choices(*old(self)),
            rank(step) < rank(CaptureStep::ReadVaapi { index, fresh }),
            step == old(self).step_after_readback(
                fresh,
                scratch@,
                ok,
                old(dst)@,
                dirty_tiles is Some,
            ),
            old(self).leads_to(
                CaptureStep::ReadVaapi { index, fresh },
                *final(self),
                step,
                dirty_tiles is Some,
            ),
            final(dst)@ == (if ok {
                scratch@
            } else {
                old(dst)@
            }),
            dirty_tiles is Some ==> old(self).tracks(&*final(dirty_tiles->0)),
            dirty_tiles is Some ==> final(dirty_tiles->0)@ == (if ok {
                old(self).marks_after_readback(scratch@, old(dst)@, (*dirty_tiles->0)@)
            } else {
                (*dirty_tiles->0)@
            }),
            *final(self) == (Capturer {
                vaapi_cache: final(self).vaapi_cache,
                use_fb2: if ok && fresh is Some {
                    Some(true)
                } else {
                    old(self).use_fb2
                },
                ..*old(self)
            }),
            final(self).vaapi_cache@ == old(self).vaapi_cache@.update(
                index as int,
                final(self).vaapi_cache@[index as int],
            ),
            final(self).vaapi_cache@[index as int].gem_handle == old(self).vaapi_cache@[index as int].gem_handle,
            final(self).vaapi_cache@[index as int].context == old(self).vaapi_cache@[index as int].context,
            final(self).vaapi_cache@[index as int].scratch@ == scratch@,
            final(self).wf(),
            final(self).can_come(step),
    {
        proof {
            self.lemma_size_fits();
        }
        let mut captured: bool = false;
        if ok {
            captured = replace_frame(dst, &scratch, self.width, self.height, dirty_tiles);
        }
        let gem_handle: u32 = self.vaapi_cache[index].gem_handle;
        let context: u64 = self.vaapi_cache[index].context;
        self.vaapi_cache[index] = VaapiCapture { gem_handle, context, scratch };
        match fresh {
            None => {
                if ok {
                    CaptureStep::Finished { captured }
                } else {
                    CaptureStep::Failed { error: CaptureError::VaapiCapture }
                }
            },
            Some(fb) => {
                if ok {
                    self.use_fb2 = Some(true);
                    CaptureStep::Finished { captured }
                } else {
                    self.fb2_failed(fb, CaptureError::VaapiCapture)
                }
            },
        }
    }

    /// The step that ends a capture whose pixels were read with the given result.
    pub open spec fn step_after_reading(
        result: Result<bool, crate::kms::pixel_format::ConvertError>,
    ) -> CaptureStep {
        match result {
            Ok(captured) => CaptureStep::Finished { captured },
            Err(error) => CaptureStep::Failed { error: CaptureError::Convert(error) },
        }
    }

    /// Answer to [`CaptureStep::ReadMapped`]: the bytes of the mapping.
    pub fn on_mapped(
        &self,
        index: usize,
        raw: &[u8],
        dst: &mut Vec<u8>,
        dirty_tiles: Option<&mut DirtyTiles>,
    ) -> (step: CaptureStep)
        requires
            self.wf(),
            self.can_come(CaptureStep::ReadMapped { index }),
            dirty_tiles is Some ==> self.tracks(&*dirty_tiles->0),
        ensures
            rank(step) == 0,
            ({
                let entry = self.cache@[index as int];
                &&& step == Self::step_after_reading(
                    self.result_of_reading(
                        entry.format,
                        entry.pitch,
                        raw@,
                        old(dst)@,
                        dirty_tiles is Some,
                    ),
                )
                &&& final(dst)@ == self.frame_after_reading(
                    entry.format,
                    entry.pitch,
                    raw@,
                    old(dst)@,
                )
                &&& dirty_tiles is Some ==> final(dirty_tiles->0)@ == self.marks_after_reading(
                    entry.format,
                    entry.pitch,
                    raw@,
                    old(dst)@,
                    (*dirty_tiles->0)@,
                )
            }),
            dirty_tiles is Some ==> self.tracks(&*final(dirty_tiles->0)),
            self.leads_to(
                CaptureStep::ReadMapped { index },
                *self,
                step,
                dirty_tiles is Some,
            ),
    {
        let entry: CachedBuffer = self.cache[index];
        match self.convert_or_incremental(dst, raw, entry.format, entry.pitch, dirty_tiles) {
            Ok(captured) => CaptureStep::Finished { captured },
            Err(error) => CaptureStep::Failed { error: CaptureError::Convert(error) },
        }
    }

    /// Answer to [`CaptureStep::ReadNew`]: the bytes of the mapping that was just made. Keeps the
    /// mapping, whether or not its pixels could be converted. Gives the next step, and the mapping
    /// that had to make room, if any.
    pub fn on_new_mapping(
        &mut self,
        entry: CachedBuffer,
        raw: &[u8],
        dst: &mut Vec<u8>,
        dirty_tiles: Option<&mut DirtyTiles>,
    ) -> (out: (CaptureStep, Option<CachedBuffer>))
        requires
            old(self).wf(),
            dirty_tiles is Some ==> old(self).tracks(&*dirty_tiles->0),
        ensures
            final(self).keeps_choices(*old(self)),
            rank(out.0) == 0,
            out.0 == Self::step_after_reading(
                old(self).result_of_reading(
                    entry.format,
                    entry.pitch,
                    raw@,
                    old(dst)@,
                    dirty_tiles is Some,
                ),
            ),
            final(dst)@ == old(self).frame_after_reading(
                entry.format,
                entry.pitch,
                raw@,
                old(dst)@,
            ),
            dirty_tiles is Some ==> old(self).tracks(&*final(dirty_tiles->0)),
            dirty_tiles is Some ==> final(dirty_tiles->0)@ == old(self).marks_after_reading(
                entry.format,
                entry.pitch,
                raw@,
                old(dst)@,
                (*dirty_tiles->0)@,
            ),
            *final(self) == (Capturer { cache: final(self).cache, ..*old(self) }),
            final(self).cache@ == pushed_bounded(old(self).cache@, entry),
            old(self).leads_to(
                CaptureStep::ReadNew { entry },
                *final(self),
                out.0,
                dirty_tiles is Some,
            ),
            out.1 == (if old(self).cache@.len() >= MAX_CACHE_ENTRIES {
                Some(old(self).cache@[0])
            } else {
                None
            }),
            final(self).wf(),
            final(self).can_come(out.0),
    {
        let step: CaptureStep = match self.convert_or_incremental(
            dst,
            raw,
            entry.format,
            entry.pitch,
            dirty_tiles,
        ) {
            Ok(captured) => CaptureStep::Finished { captured },
            Err(error) => CaptureStep::Failed { error: CaptureError::Convert(error) },
        };
        let mut evicted: Option<CachedBuffer> = None;
        if self.cache.len() >= MAX_CACHE_ENTRIES {
            evicted = Some(self.cache.remove(0));
        }
        self.cache.push(entry);
        (step, evicted)
    }
}

/// A sequence of bytes cut or filled up with zeros to the given length.
pub open spec fn resized(bytes: Seq<u8>, len: int) -> Seq<u8> {
    Seq::new(
        len as nat,
        |i: int|
            if i < bytes.len() {
                bytes[i]
            } else {
                0
            },
    )
}

/// Bytes that a mapping of `height` rows takes.
fn map_size(height: u32, pitch: u32) -> (size: u64)
    ensures
        size == (height * pitch) as u64,
        size == height * pitch,
{
    assert(0 <= height * pitch <= 0xffff_ffff * 0xffff_ffff) by (nonlinear_arith)
        requires
            0 <= height <= 0xffff_ffff,
            0 <= pitch <= 0xffff_ffff,
    ;
    height as u64 * pitch as u64
}

/// Number of planes before the first one that is missing.
fn leading_planes(buffers: &[Option<u32>; 4]) -> (count: u32)
    ensures
        count == planes_from(buffers@, 0) as u32,
        count == planes_from(buffers@, 0),
{
    let mut count: usize = 0;
    while count < 4 && buffers[count].is_some()
        invariant
            count <= 4,
            planes_from(buffers@, 0) == count + planes_from(buffers@, count as int),
        decreases 4 - count,
    {
        count += 1;
    }
    count as u32
}

} // verus!
