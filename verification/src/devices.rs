//! Which device the screen is captured from.

use crate::text::chars_of;
use crate::text::starts_with;
use vstd::prelude::*;
use vstd::seq_lib::group_to_multiset_ensures;

verus! {

/// Whether `a` comes before `b`, or is `b`, in the order of directory listings: character by
/// character, and a name before its continuations.
pub open spec fn in_order(a: Seq<char>, b: Seq<char>) -> bool
    decreases a.len(),
{
    if a.len() == 0 {
        true
    } else if b.len() == 0 {
        false
    } else if a[0] != b[0] {
        (a[0] as int) < b[0] as int
    } else {
        in_order(a.drop_first(), b.drop_first())
    }
}

/// Whether names are in order.
pub open spec fn all_in_order(names: Seq<String>) -> bool {
    forall|i: int, j: int| 0 <= i < j < names.len() ==> in_order(names[i]@, names[j]@)
}

proof fn lemma_in_order_total(a: Seq<char>, b: Seq<char>)
    ensures
        in_order(a, b) || in_order(b, a),
    decreases a.len(),
{
    if a.len() > 0 && b.len() > 0 && a[0] == b[0] {
        lemma_in_order_total(a.drop_first(), b.drop_first());
    }
}

proof fn lemma_in_order_transitive(a: Seq<char>, b: Seq<char>, c: Seq<char>)
    requires
        in_order(a, b),
        in_order(b, c),
    ensures
        in_order(a, c),
    decreases a.len(),
{
    if a.len() > 0 && b.len() > 0 && c.len() > 0 && a[0] == b[0] && b[0] == c[0] {
        lemma_in_order_transitive(a.drop_first(), b.drop_first(), c.drop_first());
    }
}

/// Whether `a` comes before `b`, or is `b`.
fn comes_first(a: &Vec<char>, b: &Vec<char>) -> (first: bool)
    ensures
        first == in_order(a@, b@),
{
    let mut i: usize = 0;
    assert(a@.skip(0) =~= a@);
    assert(b@.skip(0) =~= b@);
    loop
        invariant
            i <= a@.len(),
            i <= b@.len(),
            in_order(a@, b@) == in_order(a@.skip(i as int), b@.skip(i as int)),
        decreases a@.len() - i,
    {
        if i == a.len() {
            return true;
        }
        if i == b.len() {
            return false;
        }
        if a[i] != b[i] {
            return a[i] < b[i];
        }
        assert(a@.skip(i as int).drop_first() =~= a@.skip(i + 1));
        assert(b@.skip(i as int).drop_first() =~= b@.skip(i + 1));
        i += 1;
    }
}

/// Puts a name where it belongs among names that are in order.
fn insert_in_order(names: &mut Vec<String>, name: String)
    requires
        all_in_order(old(names)@),
    ensures
        all_in_order(final(names)@),
        final(names)@.to_multiset() == old(names)@.to_multiset().insert(name),
{
    broadcast use group_to_multiset_ensures;

    let chars: Vec<char> = chars_of(name.as_str());
    let mut at: usize = 0;
    while at < names.len() && comes_first(&chars_of(names[at].as_str()), &chars)
        invariant
            at <= names@.len(),
            chars@ == name@,
            names@ == old(names)@,
            forall|j: int| 0 <= j < at ==> in_order(#[trigger] names@[j]@, name@),
        decreases names@.len() - at,
    {
        at += 1;
    }
    let ghost before = names@;
    proof {
        if at < before.len() {
            lemma_in_order_total(before[at as int]@, name@);
            assert forall|j: int| at <= j < before.len() implies in_order(
                name@,
                #[trigger] before[j]@,
            ) by {
                if j > at {
                    lemma_in_order_transitive(name@, before[at as int]@, before[j]@);
                }
            }
        }
    }
    names.insert(at, name);
    proof {
        let after = before.insert(at as int, name);
        assert forall|i: int, j: int| 0 <= i < j < after.len() implies in_order(
            after[i]@,
            after[j]@,
        ) by {
            let oi = if i < at {
                i
            } else {
                i - 1
            };
            let oj = if j < at {
                j
            } else {
                j - 1
            };
            if i != at {
                assert(after[i] == before[oi]);
            }
            if j != at {
                assert(after[j] == before[oj]);
            }
        }
        assert(after.remove(at as int) =~= before);
        assert(after[at as int] == name);
        assert(after.contains(name));
        assert(after.to_multiset() =~= before.to_multiset().insert(name));
    }
}

/// The device names in a directory that start with `prefix`, in order.
pub fn device_candidates(names: &Vec<String>, prefix: &str) -> (candidates: Vec<String>)
    ensures
        all_in_order(candidates@),
        candidates@.to_multiset() == names@.filter(
            |name: String| crate::text::has_prefix(name@, prefix@),
        ).to_multiset(),
{
    let wanted: Vec<char> = chars_of(prefix);
    let ghost kept = |name: String| crate::text::has_prefix(name@, prefix@);
    let mut candidates: Vec<String> = Vec::new();
    let mut i: usize = 0;
    proof {
        reveal(Seq::filter);
        assert(names@.take(0).filter(kept) =~= Seq::<String>::empty());
        assert(candidates@ =~= Seq::<String>::empty());
    }
    while i < names.len()
        invariant
            i <= names@.len(),
            wanted@ == prefix@,
            kept == (|name: String| crate::text::has_prefix(name@, prefix@)),
            all_in_order(candidates@),
            candidates@.to_multiset() == names@.take(i as int).filter(kept).to_multiset(),
        decreases names@.len() - i,
    {
        let chars: Vec<char> = chars_of(names[i].as_str());
        proof {
            reveal(Seq::filter);
            assert(names@.take(i + 1).drop_last() =~= names@.take(i as int));
            assert(names@.take(i + 1).last() == names@[i as int]);
        }
        if starts_with(&chars, &wanted) {
            let ghost earlier = names@.take(i as int).filter(kept);
            insert_in_order(&mut candidates, names[i].clone());
            assert(names@.take(i + 1).filter(kept) == earlier.push(names@[i as int]));
            proof {
                vstd::seq_lib::to_multiset_build(earlier, names@[i as int]);
            }
        }
        i += 1;
    }
    assert(names@.take(names@.len() as int) =~= names@);
    candidates
}

/// What became of looking at a device.
#[derive(Clone, Copy, Debug, PartialEq, Eq, Structural)]
pub enum DeviceProbe {
    /// It could not be opened, or could not be asked what it shows.
    Failed,
    /// It shows this many pictures.
    Outputs(usize),
}

/// Whether a device shows a picture.
pub open spec fn shows_picture(probe: DeviceProbe) -> bool {
    probe matches DeviceProbe::Outputs(count) && count > 0
}

/// Whether a device shows a picture.
pub fn is_usable(probe: DeviceProbe) -> (usable: bool)
    ensures
        usable == shows_picture(probe),
{
    match probe {
        DeviceProbe::Failed => false,
        DeviceProbe::Outputs(count) => count > 0,
    }
}

/// What comes next in a search for a device.
#[derive(Clone, Copy, Debug, PartialEq, Eq, Structural)]
pub enum ScanStep {
    /// Look at the device at this place in the list.
    Try { index: usize },
    /// Use the device at this place in the list.
    Use { index: usize },
    /// There is no usable device.
    Exhausted,
}

/// What a search through `count` devices does at the device at `index`.
pub open spec fn try_step(index: int, count: int) -> ScanStep {
    if index < count {
        ScanStep::Try { index: index as usize }
    } else {
        ScanStep::Exhausted
    }
}

/// Starts a search through `count` devices.
pub fn start_scan(count: usize) -> (step: ScanStep)
    ensures
        step == try_step(0, count as int),
{
    if count > 0 {
        ScanStep::Try { index: 0 }
    } else {
        ScanStep::Exhausted
    }
}

/// Goes on with a search through `count` devices after the one at `index` was looked at.
pub fn continue_scan(count: usize, index: usize, usable: bool) -> (step: ScanStep)
    requires
        index < count,
    ensures
        step == step_after_try(index, usable, count as int),
{
    if usable {
        ScanStep::Use { index }
    } else if index + 1 < count {
        ScanStep::Try { index: index + 1 }
    } else {
        ScanStep::Exhausted
    }
}

/// What a search through `count` devices does after it has looked at the device at `index`.
pub open spec fn step_after_try(index: usize, usable: bool, count: int) -> ScanStep {
    if usable {
        ScanStep::Use { index }
    } else {
        try_step(index + 1, count)
    }
}

/// How a search that is at `step` ends, given which devices are usable.
pub open spec fn scan_outcome(usable: Seq<bool>, step: ScanStep) -> ScanStep
    decreases
            (match step {
                ScanStep::Try { index } => usable.len() - index,
                _ => 0int,
            }),
        when usable.len() <= usize::MAX
{
    match step {
        ScanStep::Try { index } => if index < usable.len() {
            scan_outcome(
                usable,
                step_after_try(index, usable[index as int], usable.len() as int),
            )
        } else {
            step
        },
        _ => step,
    }
}

/// A search uses the first usable device of the list, and fails only if there is none.
pub proof fn law_scan_uses_the_first_usable_device(usable: Seq<bool>)
    requires
        usable.len() <= usize::MAX,
    ensures
        match scan_outcome(usable, try_step(0, usable.len() as int)) {
            ScanStep::Use { index } => index < usable.len() && usable[index as int] && forall|
                j: int,
            |
                0 <= j < index ==> !usable[j],
            ScanStep::Exhausted => forall|j: int| 0 <= j < usable.len() ==> !usable[j],
            ScanStep::Try { .. } => false,
        },
{
    lemma_scan_from(usable, 0);
}

proof fn lemma_scan_from(usable: Seq<bool>, at: int)
    requires
        0 <= at <= usable.len() <= usize::MAX,
        forall|j: int| 0 <= j < at ==> !usable[j],
    ensures
        match scan_outcome(usable, try_step(at, usable.len() as int)) {
            ScanStep::Use { index } => index < usable.len() && usable[index as int] && forall|
                j: int,
            |
                0 <= j < index ==> !usable[j],
            ScanStep::Exhausted => forall|j: int| 0 <= j < usable.len() ==> !usable[j],
            ScanStep::Try { .. } => false,
        },
    decreases usable.len() - at,
{
    if at < usable.len() && !usable[at] {
        lemma_scan_from(usable, at + 1);
    } else {
        reveal_with_fuel(scan_outcome, 2);
    }
}

/// What comes next in setting up the capture.
#[derive(Debug)]
pub enum SetupStep {
    /// Try the device as a DRM device.
    TryDrm(String),
    /// Try the device as a framebuffer device.
    TryFbdev(String),
    /// Search for a DRM device.
    SearchDrm,
    /// Search for a framebuffer device.
    SearchFbdev,
    /// The capture is set up.
    Ready,
    /// There is no capture.
    Failed(SetupError),
}

/// Why there is no capture.
#[derive(Debug)]
pub enum SetupError {
    /// The device that was asked for is of no use, neither as a DRM device nor as a framebuffer
    /// device.
    DeviceUnusable(String),
    /// A DRM device was found, and its output could not be captured.
    OutputUnusable,
    /// No device is of use.
    NoDevice,
}

/// What became of searching for a DRM device.
#[derive(Clone, Copy, Debug, PartialEq, Eq, Structural)]
pub enum DrmSearch {
    /// Its output is captured.
    Captured,
    /// It was found, and its output is missing or could not be captured.
    OutputUnusable,
    /// None was found.
    NotFound,
}

/// Starts setting up the capture. A device that is asked for is tried as a DRM device first;
/// without one, a DRM device is searched for.
pub fn setup_capture(device: &Option<String>) -> (step: SetupStep)
    ensures
        match *device {
            Some(path) => step == SetupStep::TryDrm(path),
            None => step is SearchDrm,
        },
{
    match device {
        Some(path) => SetupStep::TryDrm(path.clone()),
        None => SetupStep::SearchDrm,
    }
}

/// Goes on after a device that was asked for was tried as a DRM device: it is tried as a
/// framebuffer device next, if it was of no use.
pub fn after_drm(path: String, captured: bool) -> (step: SetupStep)
    ensures
        step == (if captured {
            SetupStep::Ready
        } else {
            SetupStep::TryFbdev(path)
        }),
{
    if captured {
        SetupStep::Ready
    } else {
        SetupStep::TryFbdev(path)
    }
}

/// Goes on after a device that was asked for was tried as a framebuffer device.
pub fn after_fbdev(path: String, captured: bool) -> (step: SetupStep)
    ensures
        step == (if captured {
            SetupStep::Ready
        } else {
            SetupStep::Failed(SetupError::DeviceUnusable(path))
        }),
{
    if captured {
        SetupStep::Ready
    } else {
        SetupStep::Failed(SetupError::DeviceUnusable(path))
    }
}

/// Goes on after a DRM device was searched for. Only if there is none is a framebuffer device
/// searched for; a DRM device whose output cannot be captured ends the search.
pub fn after_drm_search(found: DrmSearch) -> (step: SetupStep)
    ensures
        step == (match found {
            DrmSearch::Captured => SetupStep::Ready,
            DrmSearch::OutputUnusable => SetupStep::Failed(SetupError::OutputUnusable),
            DrmSearch::NotFound => SetupStep::SearchFbdev,
        }),
{
    match found {
        DrmSearch::Captured => SetupStep::Ready,
        DrmSearch::OutputUnusable => SetupStep::Failed(SetupError::OutputUnusable),
        DrmSearch::NotFound => SetupStep::SearchFbdev,
    }
}

/// Goes on after a framebuffer device was searched for.
pub fn after_fbdev_search(captured: bool) -> (step: SetupStep)
    ensures
        step == (if captured {
            SetupStep::Ready
        } else {
            SetupStep::Failed(SetupError::NoDevice)
        }),
{
    if captured {
        SetupStep::Ready
    } else {
        SetupStep::Failed(SetupError::NoDevice)
    }
}

/// The order of names is decided where they first differ: the name with the smaller character there
/// comes first, and a name comes before its continuations.
pub proof fn law_names_are_ordered_by_their_first_difference(a: Seq<char>, b: Seq<char>, i: int)
    requires
        0 <= i <= a.len(),
        i <= b.len(),
        forall|j: int| 0 <= j < i ==> a[j] == b[j],
        i < a.len() && i < b.len() ==> a[i] != b[i],
    ensures
        i == a.len() ==> in_order(a, b),
        i == b.len() && i < a.len() ==> !in_order(a, b),
        i < a.len() && i < b.len() ==> (in_order(a, b) <==> (a[i] as int) < (b[i] as int)),
    decreases i,
{
    if i > 0 {
        assert(a[0] == b[0]);
        assert forall|j: int| 0 <= j < i - 1 implies a.drop_first()[j] == b.drop_first()[j] by {
            assert(a[j + 1] == b[j + 1]);
        }
        law_names_are_ordered_by_their_first_difference(a.drop_first(), b.drop_first(), i - 1);
    }
}

proof fn lemma_filter_member(names: Seq<String>, kept: spec_fn(String) -> bool, name: String)
    ensures
        names.filter(kept).contains(name) <==> (names.contains(name) && kept(name)),
    decreases names.len(),
{
    reveal(Seq::filter);
    if names.len() > 0 {
        let earlier = names.drop_last();
        let last = names.last();
        lemma_filter_member(earlier, kept, name);
        if names.contains(name) && name != last {
            let k = choose|k: int| 0 <= k < names.len() && names[k] == name;
            assert(earlier[k] == name);
        }
        if earlier.contains(name) {
            let k = choose|k: int| 0 <= k < earlier.len() && earlier[k] == name;
            assert(names[k] == name);
        }
        assert(names[names.len() - 1] == last);
        let before = earlier.filter(kept);
        if kept(last) {
            assert(before.push(last)[before.len() as int] == last);
            if before.contains(name) {
                let k = choose|k: int| 0 <= k < before.len() && before[k] == name;
                assert(before.push(last)[k] == name);
            }
            if before.push(last).contains(name) && name != last {
                let k = choose|k: int|
                    0 <= k < before.push(last).len() && before.push(last)[k] == name;
                assert(before[k] == name);
            }
        }
    }
}

/// Candidates are the names with the prefix, each as often as it is listed.
pub proof fn law_candidates_are_the_names_with_the_prefix(
    names: Seq<String>,
    prefix: Seq<char>,
    candidates: Seq<String>,
    name: String,
)
    requires
        candidates.to_multiset() == names.filter(
            |name: String| crate::text::has_prefix(name@, prefix),
        ).to_multiset(),
    ensures
        candidates.contains(name) <==> (names.contains(name) && prefix.len() <= name@.len()
            && name@.subrange(0, prefix.len() as int) == prefix),
{
    let kept = |name: String| crate::text::has_prefix(name@, prefix);
    let filtered = names.filter(kept);
    broadcast use group_to_multiset_ensures;

    assert(candidates.contains(name) <==> candidates.to_multiset().count(name) > 0);
    assert(filtered.contains(name) <==> filtered.to_multiset().count(name) > 0);
    lemma_filter_member(names, kept, name);
    assert(name@.subrange(0, prefix.len() as int) =~= name@.take(prefix.len() as int));
}

} // verus!
