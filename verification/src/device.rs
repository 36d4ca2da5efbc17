//! Choosing the physical device to render with, from what the driver reports
//! of each device.
use vstd::prelude::*;

verus! {

/// The kind of a physical device.
#[derive(Clone, Copy, Debug, PartialEq, Eq, Structural)]
pub enum DeviceKind {
    DiscreteGpu,
    IntegratedGpu,
    Cpu,
    Other,
}

/// What device selection reads of one queue family.
#[derive(Clone, Copy, Debug, PartialEq, Eq, Structural)]
pub struct QueueFamily {
    /// The family supports graphics operations.
    pub graphics: bool,
    /// The family can present to the window surface.
    pub surface_support: bool,
}

/// What device selection reads of one physical device.
#[derive(Clone, Debug)]
pub struct DeviceProperties {
    pub kind: DeviceKind,
    /// The largest supported extent of a 3D image.
    pub max_image_dimension3_d: u32,
    /// The device's queue families, in the order the driver lists them.
    pub queue_families: Vec<QueueFamily>,
}

/// The part of a device's score that its kind contributes.
pub open spec fn kind_score(kind: DeviceKind) -> int {
    match kind {
        DeviceKind::DiscreteGpu => 1000,
        DeviceKind::IntegratedGpu => -250,
        DeviceKind::Cpu => -1000,
        DeviceKind::Other => 0,
    }
}

/// A queue family can be used when it supports graphics and the surface.
pub open spec fn suitable(f: QueueFamily) -> bool {
    f.graphics && f.surface_support
}

/// Some queue family of `fams` can be used.
pub open spec fn has_suitable(fams: Seq<QueueFamily>) -> bool {
    exists|i: int| 0 <= i < fams.len() && #[trigger] suitable(fams[i])
}

/// `i` is the position of the first usable queue family of `fams`.
pub open spec fn first_suitable(fams: Seq<QueueFamily>, i: int) -> bool {
    &&& 0 <= i < fams.len()
    &&& suitable(fams[i])
    &&& forall|j: int| 0 <= j < i ==> !#[trigger] suitable(fams[j])
}

/// The score of a device: its kind's part plus its largest 3D image extent,
/// the extent taken as an `i32` (wrapping).
pub open spec fn device_score(d: DeviceProperties) -> int {
    kind_score(d.kind) + (d.max_image_dimension3_d as i32)
}

/// Scoring `d` does not overflow: a device that gets scored has a score
/// that fits in an `i32`, and its queue family positions fit in a `u32`.
pub open spec fn scorable(d: DeviceProperties) -> bool {
    &&& has_suitable(d.queue_families@) ==> i32::MIN <= device_score(d) <= i32::MAX
    &&& d.queue_families@.len() <= u32::MAX
}

/// The score of the device `d` and the position of the queue family to use,
/// or `None` when no queue family supports both graphics and the surface.
pub fn score_pdevice_with_capabilities(d: &DeviceProperties) -> (r: Option<(i32, u32)>)
    requires
        scorable(*d),
    ensures
        r is Some == has_suitable(d.queue_families@),
        r matches Some((score, family)) ==> score == device_score(*d) && first_suitable(
            d.queue_families@,
            family as int,
        ),
{
    let mut i: usize = 0;
    while i < d.queue_families.len()
        invariant
            i <= d.queue_families@.len(),
            scorable(*d),
            forall|j: int| 0 <= j < i ==> !#[trigger] suitable(d.queue_families@[j]),
        decreases d.queue_families@.len() - i,
    {
        let f = d.queue_families[i];
        if f.graphics && f.surface_support {
            let base: i32 = match d.kind {
                DeviceKind::DiscreteGpu => 1000,
                DeviceKind::IntegratedGpu => -250,
                DeviceKind::Cpu => -1000,
                DeviceKind::Other => 0,
            };
            let extent: i32 = #[verifier::truncate] (d.max_image_dimension3_d as i32);
            assert(suitable(d.queue_families@[i as int]));
            assert(has_suitable(d.queue_families@));
            assert(base == kind_score(d.kind));
            let score: i32 = base + extent;
            return Some((score, i as u32));
        }
        i = i + 1;
    }
    None
}

/// Whether scoring `d` stays free of overflow (see `scorable`).
pub fn is_scorable(d: &DeviceProperties) -> (r: bool)
    ensures
        r == scorable(*d),
{
    if d.queue_families.len() > 0xffff_ffff {
        return false;
    }
    let mut i: usize = 0;
    while i < d.queue_families.len()
        invariant
            i <= d.queue_families@.len(),
            d.queue_families@.len() <= u32::MAX,
            forall|j: int| 0 <= j < i ==> !#[trigger] suitable(d.queue_families@[j]),
        decreases d.queue_families@.len() - i,
    {
        let f = d.queue_families[i];
        if f.graphics && f.surface_support {
            assert(suitable(d.queue_families@[i as int]));
            let base: i64 = match d.kind {
                DeviceKind::DiscreteGpu => 1000,
                DeviceKind::IntegratedGpu => -250,
                DeviceKind::Cpu => -1000,
                DeviceKind::Other => 0,
            };
            let extent: i32 = #[verifier::truncate] (d.max_image_dimension3_d as i32);
            let score: i64 = base + extent as i64;
            return -0x8000_0000 <= score && score <= 0x7fff_ffff;
        }
        i = i + 1;
    }
    true
}

/// The score of a device that has a usable queue family, else `None`.
pub open spec fn score_of(d: DeviceProperties) -> Option<int> {
    if has_suitable(d.queue_families@) {
        Some(device_score(d))
    } else {
        None
    }
}

/// `p` is the position of the device to use among `devices`: it has the
/// highest score of the devices that can be used, and is the last such.
pub open spec fn best_device(devices: Seq<DeviceProperties>, p: int) -> bool {
    &&& 0 <= p < devices.len()
    &&& score_of(devices[p]) is Some
    &&& forall|j: int|
        0 <= j < devices.len() && #[trigger] score_of(devices[j]) is Some ==> device_score(
            devices[j],
        ) <= device_score(devices[p])
    &&& forall|j: int|
        p < j < devices.len() && #[trigger] score_of(devices[j]) is Some ==> device_score(
            devices[j],
        ) < device_score(devices[p])
}

/// Whether `devices` meets what `select_physical_device` requires: every
/// device can be scored, and some device is usable unless there is none.
pub fn can_select(devices: &[DeviceProperties]) -> (r: bool)
    ensures
        r == ((forall|i: int| 0 <= i < devices@.len() ==> scorable(#[trigger] devices@[i])) && (
        devices@.len() == 0 || exists|i: int|
            0 <= i < devices@.len() && #[trigger] score_of(devices@[i]) is Some)),
{
    let mut usable = false;
    let mut i: usize = 0;
    while i < devices.len()
        invariant
            i <= devices@.len(),
            forall|k: int| 0 <= k < i ==> scorable(#[trigger] devices@[k]),
            usable == exists|k: int| 0 <= k < i && #[trigger] score_of(devices@[k]) is Some,
        decreases devices@.len() - i,
    {
        if !is_scorable(&devices[i]) {
            return false;
        }
        if score_pdevice_with_capabilities(&devices[i]).is_some() {
            assert(score_of(devices@[i as int]) is Some);
            usable = true;
        }
        i = i + 1;
    }
    usable || devices.len() == 0
}

/// The position of the queue family to use and of the device to use: the
/// usable device with the highest score (the last of several), with its first
/// usable queue family. `None` when there is no device.
pub fn select_physical_device(devices: &[DeviceProperties]) -> (r: Option<(u32, usize)>)
    requires
        forall|i: int| 0 <= i < devices@.len() ==> scorable(#[trigger] devices@[i]),
        devices@.len() == 0 || exists|i: int|
            0 <= i < devices@.len() && #[trigger] score_of(devices@[i]) is Some,
    ensures
        r is None == (devices@.len() == 0),
        r matches Some((family, p)) ==> best_device(devices@, p as int) && first_suitable(
            devices@[p as int].queue_families@,
            family as int,
        ),
{
    if devices.len() == 0 {
        return None;
    }
    let mut best: Option<(i32, u32, usize)> = None;
    let mut i: usize = 0;
    while i < devices.len()
        invariant
            i <= devices@.len(),
            forall|k: int| 0 <= k < devices@.len() ==> scorable(#[trigger] devices@[k]),
            best is None ==> forall|j: int| 0 <= j < i ==> #[trigger] score_of(devices@[j]) is None,
            best matches Some((s, q, p)) ==> {
                &&& p < i
                &&& score_of(devices@[p as int]) == Some(s as int)
                &&& first_suitable(devices@[p as int].queue_families@, q as int)
                &&& forall|j: int|
                    0 <= j < i && #[trigger] score_of(devices@[j]) is Some ==> device_score(
                        devices@[j],
                    ) <= s
                &&& forall|j: int|
                    p < j < i && #[trigger] score_of(devices@[j]) is Some ==> device_score(
                        devices@[j],
                    ) < s
            },
        decreases devices@.len() - i,
    {
        let scored = score_pdevice_with_capabilities(&devices[i]);
        match scored {
            Some((s, q)) => {
                let better = match best {
                    Some((b, _, _)) => b <= s,
                    None => true,
                };
                if better {
                    best = Some((s, q, i));
                }
            },
            None => {},
        }
        i = i + 1;
    }
    match best {
        Some((_, q, p)) => Some((q, p)),
        None => {
            proof {
                let k = choose|k: int| 0 <= k < devices@.len() && #[trigger] score_of(devices@[k]) is Some;
                assert(score_of(devices@[k]) is None);
            }
            None
        },
    }
}

} // verus!
