//! Capture of a display output as shared buffers, without reading pixels.

use crate::kms::cpu_capture::ActiveOutput;
use crate::kms::cpu_capture::PlanarFramebuffer;
use crate::kms::fourcc::modifier_for_driver;
use vstd::prelude::*;

verus! {

/// A shared buffer.
#[derive(Clone, Copy, Debug, PartialEq, Eq, Structural)]
pub struct DmabufObject {
    /// File descriptor of the buffer.
    pub fd: i32,
    pub size: Option<u64>,
    pub modifier: u64,
}

/// A plane of a frame: where in which shared buffer it lies.
#[derive(Clone, Copy, Debug, PartialEq, Eq, Structural)]
pub struct DmabufPlane {
    pub object_index: usize,
    pub offset: u32,
    pub pitch: u32,
}

/// A frame that lies in shared buffers.
#[derive(Debug)]
pub struct DmabufFrame {
    pub width: u32,
    pub height: u32,
    pub drm_format: u32,
    pub src_x: u32,
    pub src_y: u32,
    pub fb_width: u32,
    pub fb_height: u32,
    /// File descriptor of the device that the buffers belong to.
    pub drm_device_fd: i32,
    pub objects: Vec<DmabufObject>,
    pub planes: Vec<DmabufPlane>,
}

/// Why a framebuffer cannot be captured as shared buffers.
#[derive(Clone, Copy, Debug, PartialEq, Eq, Structural)]
pub enum DmabufError {
    /// The framebuffer does not tell its buffers.
    NoGemBuffer,
    /// The framebuffer has no planes.
    NoPlanes,
}

/// The buffers of a framebuffer that are to be exported, and the planes in them.
#[derive(Debug)]
pub struct DmabufPlan {
    /// The buffers, each once, in the order in which they are exported.
    pub handles: Vec<u32>,
    /// For each buffer, the first plane that lies in it.
    pub first_planes: Vec<usize>,
    pub planes: Vec<DmabufPlane>,
}

/// The buffers of the first `n` planes, each once, in the order in which they come.
pub open spec fn distinct_handles(buffers: Seq<Option<u32>>, n: int) -> Seq<u32>
    decreases n,
{
    if n <= 0 {
        Seq::empty()
    } else {
        let earlier = distinct_handles(buffers, n - 1);
        match buffers[n - 1] {
            Some(handle) if !earlier.contains(handle) => earlier.push(handle),
            _ => earlier,
        }
    }
}

/// For each buffer of the first `n` planes, the first plane that lies in it.
pub open spec fn first_uses(buffers: Seq<Option<u32>>, n: int) -> Seq<usize>
    decreases n,
{
    if n <= 0 {
        Seq::empty()
    } else {
        match buffers[n - 1] {
            Some(handle) if !distinct_handles(buffers, n - 1).contains(handle) => first_uses(
                buffers,
                n - 1,
            ).push((n - 1) as usize),
            _ => first_uses(buffers, n - 1),
        }
    }
}

/// The planes among the first `n` that are present, each with the place of its buffer.
pub open spec fn present_planes(info: PlanarFramebuffer, n: int) -> Seq<DmabufPlane>
    decreases n,
{
    if n <= 0 {
        Seq::empty()
    } else {
        let earlier = present_planes(info, n - 1);
        match info.buffers@[n - 1] {
            Some(handle) => earlier.push(
                DmabufPlane {
                    object_index: distinct_handles(info.buffers@, n).index_of(handle) as usize,
                    offset: info.offsets@[n - 1],
                    pitch: info.pitches@[n - 1],
                },
            ),
            None => earlier,
        }
    }
}

impl DmabufPlan {
    /// Whether this is the plan for the framebuffer.
    pub open spec fn is_for(&self, info: PlanarFramebuffer) -> bool {
        &&& self.handles@ == distinct_handles(info.buffers@, 4)
        &&& self.first_planes@ == first_uses(info.buffers@, 4)
        &&& self.planes@ == present_planes(info, 4)
    }
}

/// Capturer of one output that hands its buffers on.
#[derive(Debug)]
pub struct DmabufCapturer {
    pub crtc_handle: u32,
    pub default_fb: u32,
    pub src_x: u32,
    pub src_y: u32,
    pub width: u32,
    pub height: u32,
}

impl DmabufCapturer {
    /// Creates a capturer of the output.
    pub fn new(output: &ActiveOutput) -> (capturer: Self)
        ensures
            capturer.crtc_handle == output.crtc_handle,
            capturer.default_fb == output.fb_handle,
            capturer.src_x == output.x,
            capturer.src_y == output.y,
            capturer.width == output.width,
            capturer.height == output.height,
    {
        DmabufCapturer {
            crtc_handle: output.crtc_handle,
            default_fb: output.fb_handle,
            src_x: output.x,
            src_y: output.y,
            width: output.width,
            height: output.height,
        }
    }

    /// The framebuffer to capture: the one that the output shows now, or else the one that it
    /// showed first.
    pub fn framebuffer(&self, current_fb: Option<u32>) -> (fb: u32)
        ensures
            fb == (match current_fb {
                Some(fb) => fb,
                None => self.default_fb,
            }),
    {
        match current_fb {
            Some(fb) => fb,
            None => self.default_fb,
        }
    }

    /// Plans the capture of a framebuffer: which buffers to export, each once, and where in them
    /// each plane lies.
    pub fn plan(info: &PlanarFramebuffer) -> (plan: Result<DmabufPlan, DmabufError>)
        ensures
            plan is Err <==> info.buffers@[0] is None,
            plan matches Err(error) ==> error == DmabufError::NoGemBuffer,
            plan matches Ok(plan) ==> plan.is_for(*info),
    {
        if info.buffers[0].is_none() {
            return Err(DmabufError::NoGemBuffer);
        }
        let mut handles: Vec<u32> = Vec::new();
        let mut first_planes: Vec<usize> = Vec::new();
        let mut planes: Vec<DmabufPlane> = Vec::new();
        let mut n: usize = 0;
        while n < 4
            invariant
                n <= 4,
                info.buffers@[0] is Some,
                handles@ == distinct_handles(info.buffers@, n as int),
                handles@.len() <= n,
                first_planes@ == first_uses(info.buffers@, n as int),
                planes@ == present_planes(*info, n as int),
                n > 0 ==> planes@.len() > 0,
            decreases 4 - n,
        {
            if let Some(handle) = info.buffers[n] {
                let ghost earlier = handles@;
                proof {
                    law_each_buffer_is_exported_once(info.buffers@, n as int);
                    law_each_buffer_is_exported_once(info.buffers@, n + 1);
                }
                let object_index: usize = match position(&handles, handle) {
                    Some(existing) => existing,
                    None => {
                        handles.push(handle);
                        first_planes.push(n);
                        handles.len() - 1
                    },
                };
                assert(handles@ == distinct_handles(info.buffers@, n + 1));
                assert(handles@.contains(handle)) by {
                    assert(handles@[object_index as int] == handle);
                }
                assert(handles@.index_of(handle) == object_index);
                planes.push(
                    DmabufPlane {
                        object_index,
                        offset: info.offsets[n],
                        pitch: info.pitches[n],
                    },
                );
            }
            n += 1;
        }
        if planes.len() == 0 {
            return Err(DmabufError::NoPlanes);
        }
        Ok(DmabufPlan { handles, first_planes, planes })
    }

    /// Puts the captured frame together. `fds` are the descriptors of the exported buffers, in the
    /// order of the plan.
    pub fn capture(
        &self,
        info: &PlanarFramebuffer,
        plan: DmabufPlan,
        fds: &Vec<i32>,
        drm_device_fd: i32,
    ) -> (frame: DmabufFrame)
        requires
            plan.is_for(*info),
            fds@.len() == plan.handles@.len(),
        ensures
            frame.width == self.width,
            frame.height == self.height,
            frame.drm_format == info.fourcc,
            frame.src_x == self.src_x,
            frame.src_y == self.src_y,
            frame.fb_width == info.width,
            frame.fb_height == info.height,
            frame.drm_device_fd == drm_device_fd,
            frame.objects@ == fds@.map_values(
                |fd: i32|
                    DmabufObject {
                        fd,
                        size: None,
                        modifier: crate::kms::fourcc::driver_modifier(info.modifier),
                    },
            ),
            frame.planes@ == present_planes(*info, 4),
    {
        let modifier: u64 = modifier_for_driver(info.modifier);
        let mut objects: Vec<DmabufObject> = Vec::new();
        let mut i: usize = 0;
        while i < fds.len()
            invariant
                i <= fds@.len(),
                objects@.len() == i,
                forall|j: int|
                    0 <= j < i ==> #[trigger] objects@[j] == (DmabufObject {
                        fd: fds@[j],
                        size: None,
                        modifier,
                    }),
            decreases fds@.len() - i,
        {
            objects.push(DmabufObject { fd: fds[i], size: None, modifier });
            i += 1;
        }
        let frame = DmabufFrame {
            width: self.width,
            height: self.height,
            drm_format: info.fourcc,
            src_x: self.src_x,
            src_y: self.src_y,
            fb_width: info.width,
            fb_height: info.height,
            drm_device_fd,
            objects,
            planes: plan.planes,
        };
        assert(frame.objects@ =~= fds@.map_values(
            |fd: i32|
                DmabufObject {
                    fd,
                    size: None,
                    modifier: crate::kms::fourcc::driver_modifier(info.modifier),
                },
        ));
        frame
    }
}

/// The first place at which `items` holds `item`.
fn position(items: &Vec<u32>, item: u32) -> (index: Option<usize>)
    ensures
        match index {
            Some(i) => i < items@.len() && items@[i as int] == item && forall|j: int|
                0 <= j < i ==> items@[j] != item,
            None => !items@.contains(item),
        },
{
    let mut i: usize = 0;
    while i < items.len()
        invariant
            i <= items@.len(),
            forall|j: int| 0 <= j < i ==> items@[j] != item,
        decreases items@.len() - i,
    {
        if items[i] == item {
            return Some(i);
        }
        i += 1;
    }
    None
}

/// Each buffer is exported once: the exported buffers are distinct, and are those of the planes.
pub proof fn law_each_buffer_is_exported_once(buffers: Seq<Option<u32>>, n: int)
    ensures
        n >= 0 ==> distinct_handles(buffers, n).len() <= n,
        distinct_handles(buffers, n).no_duplicates(),
        forall|handle: u32| #[trigger]
            distinct_handles(buffers, n).contains(handle) <==> exists|i: int|
                0 <= i < n && #[trigger] buffers[i] == Some(handle),
    decreases n,
{
    if n > 0 {
        law_each_buffer_is_exported_once(buffers, n - 1);
        let earlier = distinct_handles(buffers, n - 1);
        let all = distinct_handles(buffers, n);
        assert forall|handle: u32| #[trigger] all.contains(handle) <==> exists|i: int|
            0 <= i < n && #[trigger] buffers[i] == Some(handle) by {
            if all.contains(handle) {
                let k = choose|k: int| 0 <= k < all.len() && all[k] == handle;
                if k < earlier.len() {
                    assert(earlier[k] == handle);
                    assert(earlier.contains(handle));
                    let i = choose|i: int| 0 <= i < n - 1 && #[trigger] buffers[i] == Some(handle);
                    assert(0 <= i < n && buffers[i] == Some(handle));
                } else {
                    assert(buffers[n - 1] == Some(handle));
                }
            }
            if exists|i: int| 0 <= i < n && #[trigger] buffers[i] == Some(handle) {
                let i = choose|i: int| 0 <= i < n && #[trigger] buffers[i] == Some(handle);
                if i == n - 1 && !earlier.contains(handle) {
                    assert(all[earlier.len() as int] == handle);
                } else {
                    if i < n - 1 {
                        assert(0 <= i < n - 1 && buffers[i] == Some(handle));
                    }
                    assert(earlier.contains(handle));
                    let k = choose|k: int| 0 <= k < earlier.len() && earlier[k] == handle;
                    assert(all[k] == handle);
                }
            }
        }
    }
}

proof fn lemma_handles_extend(buffers: Seq<Option<u32>>, n: int, m: int)
    requires
        0 <= n <= m,
    ensures
        distinct_handles(buffers, n).len() <= distinct_handles(buffers, m).len(),
        forall|k: int|
            0 <= k < distinct_handles(buffers, n).len() ==> #[trigger] distinct_handles(
                buffers,
                n,
            )[k] == distinct_handles(buffers, m)[k],
    decreases m,
{
    if n < m {
        lemma_handles_extend(buffers, n, m - 1);
    }
}

/// Every plane of a captured frame lies in the exported copy of its own buffer: the `k`-th plane
/// stands for some plane `i` of the framebuffer that is present, with its offset and its row
/// distance, and the buffer at its place in the list of exported buffers is the buffer of `i`.
pub proof fn law_planes_lie_in_their_own_buffers(info: PlanarFramebuffer, n: int, k: int)
    requires
        0 <= n <= 4,
        0 <= k < present_planes(info, n).len(),
    ensures
        exists|i: int|
            {
                let plane = present_planes(info, n)[k];
                let handles = distinct_handles(info.buffers@, 4);
                &&& 0 <= i < n
                &&& plane.object_index < handles.len()
                &&& #[trigger] info.buffers@[i] == Some(handles[plane.object_index as int])
                &&& plane.offset == info.offsets@[i]
                &&& plane.pitch == info.pitches@[i]
            },
    decreases n,
{
    if n > 0 {
        let earlier = present_planes(info, n - 1);
        let handles = distinct_handles(info.buffers@, 4);
        let plane = present_planes(info, n)[k];
        if k < earlier.len() {
            law_planes_lie_in_their_own_buffers(info, n - 1, k);
            let i = choose|i: int|
                {
                    &&& 0 <= i < n - 1
                    &&& plane.object_index < handles.len()
                    &&& #[trigger] info.buffers@[i] == Some(handles[plane.object_index as int])
                    &&& plane.offset == info.offsets@[i]
                    &&& plane.pitch == info.pitches@[i]
                };
            assert(info.buffers@[i] == Some(handles[plane.object_index as int]));
        } else {
            let i = n - 1;
            let handle = info.buffers@[i]->0;
            let own = distinct_handles(info.buffers@, n);
            law_each_buffer_is_exported_once(info.buffers@, n);
            law_each_buffer_is_exported_once(info.buffers@, 4);
            lemma_handles_extend(info.buffers@, n, 4);
            assert(info.buffers@[i] == Some(handle));
            assert(own.contains(handle));
            let at = own.index_of(handle);
            assert(0 <= at < own.len() && own[at] == handle);
            assert(info.buffers@[i] == Some(handles[plane.object_index as int]));
        }
    }
}

/// A framebuffer that names its first buffer is captured as one to four planes in at least one and
/// at most four exported buffers.
pub proof fn law_captured_counts_are_in_range(info: PlanarFramebuffer)
    requires
        info.buffers@[0] is Some,
    ensures
        1 <= present_planes(info, 4).len() <= 4,
        1 <= distinct_handles(info.buffers@, 4).len() <= 4,
{
    reveal_with_fuel(present_planes, 5);
    law_each_buffer_is_exported_once(info.buffers@, 4);
    assert(distinct_handles(info.buffers@, 4).contains(info.buffers@[0]->0)) by {
        assert(info.buffers@[0] == Some(info.buffers@[0]->0));
    }
}

/// Number of planes that are present among the first `n`.
pub open spec fn count_present(buffers: Seq<Option<u32>>, n: int) -> int
    decreases n,
{
    if n <= 0 {
        0
    } else {
        count_present(buffers, n - 1) + if buffers[n - 1] is Some {
            1int
        } else {
            0
        }
    }
}

/// No plane is lost, and planes keep their order: a captured frame has a plane for each plane that is
/// present, at the place that it has among those, with its offset and its row distance, in the
/// exported copy of its own buffer.
pub proof fn law_planes_keep_their_order(info: PlanarFramebuffer, n: int, i: int)
    requires
        0 <= i < n <= 4,
        info.buffers@[i] is Some,
    ensures
        ({
            let planes = present_planes(info, n);
            let handles = distinct_handles(info.buffers@, 4);
            let k = count_present(info.buffers@, i);
            &&& planes.len() == count_present(info.buffers@, n)
            &&& 0 <= k < planes.len()
            &&& planes[k].offset == info.offsets@[i]
            &&& planes[k].pitch == info.pitches@[i]
            &&& planes[k].object_index < handles.len()
            &&& handles[planes[k].object_index as int] == info.buffers@[i]->0
        }),
    decreases n,
{
    lemma_present_count(info, n - 1);
    lemma_present_count(info, i);
    if i < n - 1 {
        law_planes_keep_their_order(info, n - 1, i);
    } else {
        let handle = info.buffers@[i]->0;
        let own = distinct_handles(info.buffers@, n);
        law_each_buffer_is_exported_once(info.buffers@, n);
        law_each_buffer_is_exported_once(info.buffers@, 4);
        lemma_handles_extend(info.buffers@, n, 4);
        assert(info.buffers@[i] == Some(handle));
        assert(own.contains(handle));
        let at = own.index_of(handle);
        assert(0 <= at < own.len() && own[at] == handle);
    }
}

proof fn lemma_present_count(info: PlanarFramebuffer, n: int)
    ensures
        present_planes(info, n).len() == count_present(info.buffers@, n),
        count_present(info.buffers@, n) >= 0,
    decreases n,
{
    if n > 0 {
        lemma_present_count(info, n - 1);
    }
}

/// Buffers are exported in the order of the planes that name them first: the plane noted for a buffer
/// lies in it, no earlier plane does, and it comes after those noted for the buffers before.
pub proof fn law_exports_follow_their_first_planes(buffers: Seq<Option<u32>>, n: int, j: int)
    requires
        0 <= n <= usize::MAX,
        0 <= j < distinct_handles(buffers, n).len(),
    ensures
        ({
            let handles = distinct_handles(buffers, n);
            let firsts = first_uses(buffers, n);
            &&& firsts.len() == handles.len()
            &&& 0 <= firsts[j] < n
            &&& buffers[firsts[j] as int] == Some(handles[j])
            &&& forall|i: int| 0 <= i < firsts[j] ==> #[trigger] buffers[i] != Some(handles[j])
            &&& forall|i: int| 0 <= i < j ==> #[trigger] firsts[i] < firsts[j]
        }),
    decreases n,
{
    let earlier = distinct_handles(buffers, n - 1);
    lemma_first_uses_count(buffers, n - 1);
    lemma_first_uses_count(buffers, n);
    law_each_buffer_is_exported_once(buffers, n - 1);
    if j < earlier.len() {
        law_exports_follow_their_first_planes(buffers, n - 1, j);
    } else {
        let handle = buffers[n - 1]->0;
        assert(buffers[n - 1] == Some(handle) && !earlier.contains(handle));
        assert forall|i: int| 0 <= i < n - 1 implies #[trigger] buffers[i] != Some(handle) by {
            if buffers[i] == Some(handle) {
                assert(earlier.contains(handle));
            }
        }
        assert forall|i: int| 0 <= i < j implies #[trigger] first_uses(buffers, n)[i]
            < first_uses(buffers, n)[j] by {
            law_exports_follow_their_first_planes(buffers, n - 1, i);
        }
    }
}

proof fn lemma_first_uses_count(buffers: Seq<Option<u32>>, n: int)
    ensures
        first_uses(buffers, n).len() == distinct_handles(buffers, n).len(),
    decreases n,
{
    if n > 0 {
        lemma_first_uses_count(buffers, n - 1);
    }
}

} // verus!
