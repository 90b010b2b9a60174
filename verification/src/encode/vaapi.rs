//! Encoding by the video driver.

use crate::encode::EncodeError;
use crate::encode::VideoCodec;
use crate::encode::VideoEncoder;
use crate::kms::dmabuf::DmabufFrame;
use crate::kms::dmabuf::DmabufObject;
use crate::kms::dmabuf::DmabufPlane;
use crate::video::VideoFrame;
use vstd::prelude::*;

verus! {

/// Most shared buffers, and most planes, of a frame that the video driver takes.
pub const MAX_PLANES: usize = 4;

/// What the video driver is asked to open, to find out whether it can encode a frame.
#[derive(Clone, Copy, Debug, PartialEq, Eq)]
pub struct VaapiProbe {
    pub drm_device_fd: i32,
    pub width: u32,
    pub height: u32,
    pub drm_format: u32,
    pub modifier: u64,
    pub object_fds: [i32; 4],
    pub object_sizes: [u64; 4],
    pub num_objects: u32,
    pub object_indices: [u32; 4],
    pub offsets: [u32; 4],
    pub pitches: [u32; 4],
    pub num_planes: u32,
}

/// Size of a shared buffer; zero if it is not known.
pub open spec fn known_size(object: DmabufObject) -> u64 {
    match object.size {
        Some(size) => size,
        None => 0,
    }
}

impl VaapiProbe {
    /// Whether the probe describes the frame: its buffers and planes come first in the lists, and
    /// zeros fill the rest.
    pub open spec fn describes(&self, frame: &DmabufFrame) -> bool {
        let objects = frame.objects@;
        let planes = frame.planes@;
        &&& self.drm_device_fd == frame.drm_device_fd
        &&& self.width == frame.width
        &&& self.height == frame.height
        &&& self.drm_format == frame.drm_format
        &&& self.modifier == objects[0].modifier
        &&& self.num_objects == objects.len()
        &&& self.num_planes == planes.len()
        &&& forall|i: int|
            0 <= i < 4 ==> #[trigger] self.object_fds@[i] == (if i < objects.len() {
                objects[i].fd
            } else {
                0
            })
        &&& forall|i: int|
            0 <= i < 4 ==> #[trigger] self.object_sizes@[i] == (if i < objects.len() {
                known_size(objects[i])
            } else {
                0
            })
        &&& forall|i: int|
            0 <= i < 4 ==> #[trigger] self.object_indices@[i] == (if i < planes.len() {
                planes[i].object_index as u32
            } else {
                0
            })
        &&& forall|i: int|
            0 <= i < 4 ==> #[trigger] self.offsets@[i] == (if i < planes.len() {
                planes[i].offset
            } else {
                0
            })
        &&& forall|i: int|
            0 <= i < 4 ==> #[trigger] self.pitches@[i] == (if i < planes.len() {
                planes[i].pitch
            } else {
                0
            })
    }

    /// Describes a frame to the video driver.
    pub fn new(frame: &DmabufFrame) -> (probe: Result<VaapiProbe, EncodeError>)
        ensures
            if frame.objects@.len() == 0 || frame.objects@.len() > 4 {
                probe == Err::<VaapiProbe, EncodeError>(
                    EncodeError::ObjectCount(frame.objects@.len() as usize),
                )
            } else if frame.planes@.len() == 0 || frame.planes@.len() > 4 {
                probe == Err::<VaapiProbe, EncodeError>(
                    EncodeError::PlaneCount(frame.planes@.len() as usize),
                )
            } else {
                probe is Ok && probe->Ok_0.describes(frame)
            },
    {
        let num_objects: usize = frame.objects.len();
        let num_planes: usize = frame.planes.len();
        if num_objects == 0 || num_objects > MAX_PLANES {
            return Err(EncodeError::ObjectCount(num_objects));
        }
        if num_planes == 0 || num_planes > MAX_PLANES {
            return Err(EncodeError::PlaneCount(num_planes));
        }
        let modifier: u64 = frame.objects[0].modifier;
        let mut object_fds: [i32; 4] = [0i32, 0, 0, 0];
        let mut object_sizes: [u64; 4] = [0u64, 0, 0, 0];
        let mut object_indices: [u32; 4] = [0u32, 0, 0, 0];
        let mut offsets: [u32; 4] = [0u32, 0, 0, 0];
        let mut pitches: [u32; 4] = [0u32, 0, 0, 0];
        let mut i: usize = 0;
        while i < num_objects
            invariant
                i <= num_objects <= 4,
                num_objects == frame.objects@.len(),
                forall|j: int|
                    0 <= j < 4 ==> #[trigger] object_fds@[j] == (if j < i {
                        frame.objects@[j].fd
                    } else {
                        0
                    }),
                forall|j: int|
                    0 <= j < 4 ==> #[trigger] object_sizes@[j] == (if j < i {
                        known_size(frame.objects@[j])
                    } else {
                        0
                    }),
            decreases num_objects - i,
        {
            let object: DmabufObject = frame.objects[i];
            object_fds[i] = object.fd;
            object_sizes[i] = match object.size {
                Some(size) => size,
                None => 0,
            };
            i += 1;
        }
        let mut k: usize = 0;
        while k < num_planes
            invariant
                k <= num_planes <= 4,
                num_planes == frame.planes@.len(),
                forall|j: int|
                    0 <= j < 4 ==> #[trigger] object_indices@[j] == (if j < k {
                        frame.planes@[j].object_index as u32
                    } else {
                        0
                    }),
                forall|j: int|
                    0 <= j < 4 ==> #[trigger] offsets@[j] == (if j < k {
                        frame.planes@[j].offset
                    } else {
                        0
                    }),
                forall|j: int|
                    0 <= j < 4 ==> #[trigger] pitches@[j] == (if j < k {
                        frame.planes@[j].pitch
                    } else {
                        0
                    }),
            decreases num_planes - k,
        {
            let plane: DmabufPlane = frame.planes[k];
            object_indices[k] = #[verifier::truncate] (plane.object_index as u32);
            offsets[k] = plane.offset;
            pitches[k] = plane.pitch;
            k += 1;
        }
        Ok(
            VaapiProbe {
                drm_device_fd: frame.drm_device_fd,
                width: frame.width,
                height: frame.height,
                drm_format: frame.drm_format,
                modifier,
                object_fds,
                object_sizes,
                num_objects: num_objects as u32,
                object_indices,
                offsets,
                pitches,
                num_planes: num_planes as u32,
            },
        )
    }
}

/// What the video driver answered to a probe.
#[derive(Clone, Copy, Debug, PartialEq, Eq, Structural)]
pub struct ProbeAnswer {
    /// Which driver context was opened, as numbered by whoever opened it.
    pub context: u64,
    pub supports_h264: bool,
}

/// Encoder that hands frames in shared buffers to the video driver.
#[derive(Debug)]
pub struct VaapiEncoder {
    pub codec: VideoCodec,
    /// The driver context that has opened a frame, once one has.
    pub probe: Option<u64>,
}

impl VaapiEncoder {
    /// Creates an encoder.
    pub fn new(codec: VideoCodec) -> (encoder: Self)
        ensures
            encoder.codec == codec,
            encoder.probe is None,
    {
        VaapiEncoder { codec, probe: None }
    }

    /// Why the frame of a probe is not encoded.
    pub open spec fn probe_error(answer: Option<ProbeAnswer>, pts: u64) -> EncodeError {
        match answer {
            None => EncodeError::ProbeFailed,
            Some(found) => if found.supports_h264 {
                EncodeError::NotImplemented { pts }
            } else {
                EncodeError::NoH264Entrypoint
            },
        }
    }

    /// The encoder after a probe. The driver context is kept only if the driver can encode.
    pub open spec fn after_probe(&self, answer: Option<ProbeAnswer>) -> VaapiEncoder {
        match answer {
            Some(found) if found.supports_h264 => VaapiEncoder {
                probe: Some(found.context),
                ..*self
            },
            _ => *self,
        }
    }

    /// Whether `job` is what is to be done to encode a frame, or why it is not encoded.
    pub open spec fn prepares(
        &self,
        frame: VideoFrame,
        pts: u64,
        job: Result<VaapiProbe, EncodeError>,
    ) -> bool {
        if self.codec != VideoCodec::H264 {
            job == Err::<VaapiProbe, EncodeError>(EncodeError::UnsupportedCodec(self.codec))
        } else {
            match frame {
                VideoFrame::CpuBgra { .. } => job == Err::<VaapiProbe, EncodeError>(
                    EncodeError::Frame(crate::video::FrameError::NotDmabuf),
                ),
                VideoFrame::Dmabuf(dmabuf) => if self.probe is Some {
                    job == Err::<VaapiProbe, EncodeError>(EncodeError::NotImplemented { pts })
                } else if dmabuf.objects@.len() == 0 || dmabuf.objects@.len() > 4 {
                    job == Err::<VaapiProbe, EncodeError>(
                        EncodeError::ObjectCount(dmabuf.objects@.len() as usize),
                    )
                } else if dmabuf.planes@.len() == 0 || dmabuf.planes@.len() > 4 {
                    job == Err::<VaapiProbe, EncodeError>(
                        EncodeError::PlaneCount(dmabuf.planes@.len() as usize),
                    )
                } else {
                    job is Ok && job->Ok_0.describes(&dmabuf)
                },
            }
        }
    }

    /// Takes in the video driver's answer to a probe: `None` if it could not open the frame. The
    /// driver context is kept only if the driver can encode. The frame is not encoded either way;
    /// the result says why.
    pub fn ensure_probe(&mut self, answer: Option<ProbeAnswer>, pts: u64) -> (error: EncodeError)
        ensures
            error == Self::probe_error(answer, pts),
            *final(self) == old(self).after_probe(answer),
    {
        match answer {
            None => EncodeError::ProbeFailed,
            Some(found) => {
                if found.supports_h264 {
                    self.probe = Some(found.context);
                    EncodeError::NotImplemented { pts }
                } else {
                    EncodeError::NoH264Entrypoint
                }
            },
        }
    }
}

impl VideoEncoder for VaapiEncoder {
    type Job = VaapiProbe;

    open spec fn codec_spec(&self) -> VideoCodec {
        self.codec
    }

    open spec fn accepts(&self, frame: &VideoFrame) -> bool {
        true
    }

    fn codec(&self) -> VideoCodec {
        self.codec
    }

    /// Prepares the encoding of a frame. The first frame is handed to the video driver as a probe;
    /// once a probe has succeeded, no frame is.
    fn encode(&mut self, frame: &VideoFrame, force_keyframe: bool, pts: u64) -> (job: Result<
        VaapiProbe,
        EncodeError,
    >)
        ensures
            *final(self) == *old(self),
            old(self).prepares(*frame, pts, job),
    {
        if self.codec != VideoCodec::H264 {
            return Err(EncodeError::UnsupportedCodec(self.codec));
        }
        let dmabuf: &DmabufFrame = match frame.as_dmabuf() {
            Err(error) => return Err(EncodeError::Frame(error)),
            Ok(dmabuf) => dmabuf,
        };
        if self.probe.is_some() {
            return Err(EncodeError::NotImplemented { pts });
        }
        VaapiProbe::new(dmabuf)
    }
}

/// The video driver is asked until it can encode: after an answer that it can, no frame is handed to
/// it any more; after any other answer, the next frame that it can be asked about is.
pub proof fn law_driver_is_asked_until_it_can_encode(
    encoder: VaapiEncoder,
    answer: Option<ProbeAnswer>,
    frame: DmabufFrame,
    pts: u64,
    job: Result<VaapiProbe, EncodeError>,
)
    requires
        encoder.codec == VideoCodec::H264,
        encoder.probe is None,
        1 <= frame.objects@.len() <= 4,
        1 <= frame.planes@.len() <= 4,
        encoder.after_probe(answer).prepares(VideoFrame::Dmabuf(frame), pts, job),
    ensures
        job is Ok <==> !(answer matches Some(found) && found.supports_h264),
        job matches Err(error) ==> error == (EncodeError::NotImplemented { pts }),
        job matches Ok(probe) ==> probe.num_planes == frame.planes@.len() && probe.num_objects
            == frame.objects@.len(),
{
}

/// A probe lists every buffer and every plane of a frame at its own place, and nothing else.
pub proof fn law_probe_lists_the_frame(probe: VaapiProbe, frame: DmabufFrame, i: int)
    requires
        probe.describes(&frame),
        frame.objects@.len() <= 4,
        frame.planes@.len() <= 4,
    ensures
        0 <= i < frame.objects@.len() ==> probe.object_fds@[i] == frame.objects@[i].fd,
        0 <= i < frame.objects@.len() ==> (frame.objects@[i].size matches Some(size)
            ==> probe.object_sizes@[i] == size),
        0 <= i < frame.objects@.len() ==> (frame.objects@[i].size is None
            ==> probe.object_sizes@[i] == 0),
        0 <= i < frame.planes@.len() && frame.planes@[i].object_index <= u32::MAX
            ==> probe.object_indices@[i] == frame.planes@[i].object_index,
        0 <= i < frame.planes@.len() ==> probe.offsets@[i] == frame.planes@[i].offset,
        0 <= i < frame.planes@.len() ==> probe.pitches@[i] == frame.planes@[i].pitch,
        frame.objects@.len() <= i < 4 ==> probe.object_fds@[i] == 0 && probe.object_sizes@[i] == 0,
        probe.width == frame.width && probe.height == frame.height,
        probe.drm_format == frame.drm_format,
        probe.drm_device_fd == frame.drm_device_fd,
        probe.num_objects == frame.objects@.len() && probe.num_planes == frame.planes@.len(),
        frame.objects@.len() > 0 ==> probe.modifier == frame.objects@[0].modifier,
{
}

} // verus!
