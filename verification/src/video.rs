//! Frames on their way from the capture to the viewers and the video encoders.

use crate::kms::dmabuf::DmabufFrame;
use vstd::prelude::*;

verus! {

/// A captured frame.
#[derive(Debug)]
pub enum VideoFrame {
    /// Pixels in memory, four bytes each: blue, green, red, alpha.
    CpuBgra { width: u32, height: u32, stride: u32, data: Vec<u8> },
    /// Pixels in shared buffers.
    Dmabuf(DmabufFrame),
}

/// Why a frame cannot be used.
#[derive(Clone, Copy, Debug, PartialEq, Eq, Structural)]
pub enum FrameError {
    /// The pixels lie in shared buffers, not in memory.
    NotCpuBgra,
    /// The pixels lie in memory, not in shared buffers.
    NotDmabuf,
    /// The frame has another size than expected.
    UnexpectedSize { width: u32, height: u32, expected_width: u32, expected_height: u32 },
    /// The rows are further apart, or closer together, than they are long.
    UnexpectedStride { stride: u32, expected: u32 },
    /// The frame has more or fewer bytes than its rows take.
    UnexpectedLength { len: usize, expected: usize },
    /// A frame in shared buffers cannot be copied.
    CannotClone,
}

impl VideoFrame {
    /// Whether this is a frame in memory with packed rows and just the bytes that they take.
    pub open spec fn is_packed(&self, for_width: u32, for_height: u32) -> bool {
        match *self {
            VideoFrame::CpuBgra { width, height, stride, data } => {
                &&& width == for_width
                &&& height == for_height
                &&& stride == width * 4
                &&& data@.len() == height * stride
            },
            VideoFrame::Dmabuf(_) => false,
        }
    }

    /// Creates a frame in memory with packed rows.
    pub fn new_cpu_bgra(width: u32, height: u32, data: Vec<u8>) -> (frame: Self)
        requires
            width * 4 <= u32::MAX,
        ensures
            frame == (VideoFrame::CpuBgra { width, height, stride: (width * 4) as u32, data }),
    {
        VideoFrame::CpuBgra { width, height, stride: width * 4, data }
    }

    /// Makes this a frame in memory of the given size with packed rows, and gives its bytes to
    /// write to. The bytes of a frame in memory are kept; a frame in shared buffers is dropped,
    /// and there are no bytes yet.
    pub fn cpu_bgra_mut(&mut self, width: u32, height: u32) -> (bytes: &mut Vec<u8>)
        requires
            width * 4 <= u32::MAX,
        ensures
            (*bytes)@ == (match *old(self) {
                VideoFrame::CpuBgra { data, .. } => data@,
                VideoFrame::Dmabuf(_) => Seq::<u8>::empty(),
            }),
            *final(self) == (VideoFrame::CpuBgra {
                width,
                height,
                stride: (width * 4) as u32,
                data: *final(bytes),
            }),
    {
        if let VideoFrame::Dmabuf(_) = self {
            *self = Self::new_cpu_bgra(width, height, Vec::new());
        }
        match self {
            VideoFrame::CpuBgra { width: frame_width, height: frame_height, stride, data } => {
                *frame_width = width;
                *frame_height = height;
                *stride = width * 4;
                data
            },
            VideoFrame::Dmabuf(_) => vstd::pervasive::unreached(),
        }
    }

    /// Size, row distance and bytes of a frame in memory.
    pub fn as_bgra(&self) -> (parts: Result<(u32, u32, u32, &[u8]), FrameError>)
        ensures
            match *self {
                VideoFrame::CpuBgra { width, height, stride, data } => parts matches Ok(p) && p.0
                    == width && p.1 == height && p.2 == stride && p.3@ == data@,
                VideoFrame::Dmabuf(_) => parts matches Err(error) && error
                    == FrameError::NotCpuBgra,
            },
    {
        match self {
            VideoFrame::CpuBgra { width, height, stride, data } => Ok(
                (*width, *height, *stride, data.as_slice()),
            ),
            VideoFrame::Dmabuf(_) => Err(FrameError::NotCpuBgra),
        }
    }

    /// The shared buffers of a frame.
    pub fn as_dmabuf(&self) -> (frame: Result<&DmabufFrame, FrameError>)
        ensures
            frame == (match *self {
                VideoFrame::Dmabuf(frame) => Ok::<&DmabufFrame, FrameError>(&frame),
                VideoFrame::CpuBgra { .. } => Err(FrameError::NotDmabuf),
            }),
    {
        match self {
            VideoFrame::Dmabuf(frame) => Ok(frame),
            VideoFrame::CpuBgra { .. } => Err(FrameError::NotDmabuf),
        }
    }

    /// What a check of the frame against the expected size finds first.
    pub open spec fn check_result(&self, expected_width: u32, expected_height: u32) -> Result<
        (),
        FrameError,
    > {
        match *self {
            VideoFrame::Dmabuf(_) => Err(FrameError::NotCpuBgra),
            VideoFrame::CpuBgra { width, height, stride, data } => if width != expected_width
                || height != expected_height {
                Err(
                    FrameError::UnexpectedSize { width, height, expected_width, expected_height },
                )
            } else if stride != width * 4 {
                Err(FrameError::UnexpectedStride { stride, expected: (width * 4) as u32 })
            } else if data@.len() != height * stride {
                Err(
                    FrameError::UnexpectedLength {
                        len: data@.len() as usize,
                        expected: (height * stride) as usize,
                    },
                )
            } else {
                Ok(())
            },
        }
    }

    /// Checks that this is a frame in memory of the expected size, with packed rows and just the
    /// bytes that they take.
    pub fn validate_cpu_bgra(&self, expected_width: u32, expected_height: u32) -> (result: Result<
        (),
        FrameError,
    >)
        requires
            *self matches VideoFrame::CpuBgra { width, height, stride, data } ==> (width
                == expected_width && height == expected_height) ==> {
                &&& width * 4 <= u32::MAX
                &&& stride == width * 4 ==> height * stride <= u32::MAX
            },
        ensures
            result == self.check_result(expected_width, expected_height),
            result is Ok <==> self.is_packed(expected_width, expected_height),
    {
        let (width, height, stride, data) = match self.as_bgra() {
            Err(error) => return Err(error),
            Ok(parts) => parts,
        };
        if width != expected_width || height != expected_height {
            return Err(
                FrameError::UnexpectedSize { width, height, expected_width, expected_height },
            );
        }
        let expected_stride: u32 = width * 4;
        if stride != expected_stride {
            return Err(FrameError::UnexpectedStride { stride, expected: expected_stride });
        }
        assert(0 <= height * stride) by (nonlinear_arith)
            requires
                0 <= height,
                0 <= stride,
        ;
        let expected_len: usize = (height * stride) as usize;
        if data.len() != expected_len {
            return Err(
                FrameError::UnexpectedLength { len: data.len(), expected: expected_len },
            );
        }
        Ok(())
    }
}

/// Copies a frame in memory. A frame in shared buffers cannot be copied.
pub fn clone_video_frame(frame: &VideoFrame) -> (copy: Result<VideoFrame, FrameError>)
    ensures
        match *frame {
            VideoFrame::CpuBgra { width, height, stride, data } => copy matches Ok(
                VideoFrame::CpuBgra { width: w, height: h, stride: s, data: d },
            ) && w == width && h == height && s == stride && d@ == data@,
            VideoFrame::Dmabuf(_) => copy == Err::<VideoFrame, FrameError>(
                FrameError::CannotClone,
            ),
        },
{
    match frame {
        VideoFrame::CpuBgra { width, height, stride, data } => {
            let bytes: Vec<u8> = data.clone();
            assert(bytes@ =~= data@);
            Ok(
                VideoFrame::CpuBgra {
                    width: *width,
                    height: *height,
                    stride: *stride,
                    data: bytes,
                },
            )
        },
        VideoFrame::Dmabuf(_) => Err(FrameError::CannotClone),
    }
}

} // verus!
