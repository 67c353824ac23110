use vstd::prelude::*;

use crate::error::{AppError, FilterStage, SetupError};
use crate::swapchain::SurfaceFormat;

verus! {

/// The resolved identity of a selected accelerator: its name and the queue
/// families that serve graphics and presentation.
#[derive(Debug)]
pub struct DeviceDetails {
    pub name: String,
    pub graphics_queue_index: u32,
    pub present_queue_index: u32,
}

/// One queue family of an accelerator, as the driver and the surface report it.
#[derive(Clone, Copy, Debug, PartialEq, Eq, Structural)]
pub struct QueueFamily {
    pub queue_count: u32,
    pub graphics: bool,
    /// Whether the surface can present from this family.
    pub present_support: bool,
}

/// An enumerated accelerator with everything the selector reads about it.
#[derive(Debug)]
pub struct CandidateDevice {
    pub handle: u64,
    pub name: String,
    pub extensions: Vec<String>,
    pub formats: Vec<SurfaceFormat>,
    pub present_modes: Vec<i32>,
    pub queue_families: Vec<QueueFamily>,
}

/// An accelerator that passed every filter, with its resolved queue families.
#[derive(Debug)]
pub struct SuitableDevice {
    pub handle: u64,
    pub details: DeviceDetails,
}

/// Whether `names` holds a string equal to `name`.
pub open spec fn has_name(names: Seq<String>, name: Seq<char>) -> bool {
    exists|j: int| 0 <= j < names.len() && names[j]@ == name
}

/// Whether the device advertises every required extension.
pub open spec fn supports_extensions(d: CandidateDevice, required: Seq<String>) -> bool {
    forall|i: int| 0 <= i < required.len() ==> has_name(d.extensions@, #[trigger] required[i]@)
}

/// Whether the surface offers the device at least one format and one present mode.
pub open spec fn swapchain_adequate(d: CandidateDevice) -> bool {
    d.formats@.len() > 0 && d.present_modes@.len() > 0
}

/// Whether a family has queues and serves graphics (or, when `graphics` is
/// false, presentation).
pub open spec fn serves(f: QueueFamily, graphics: bool) -> bool {
    f.queue_count > 0 && if graphics {
        f.graphics
    } else {
        f.present_support
    }
}

pub open spec fn is_first_family(fams: Seq<QueueFamily>, graphics: bool, i: int) -> bool {
    &&& 0 <= i < fams.len()
    &&& serves(fams[i], graphics)
    &&& forall|j: int| 0 <= j < i ==> !serves(#[trigger] fams[j], graphics)
}

/// The index of the first family that serves the role, if any does.
pub open spec fn first_family(fams: Seq<QueueFamily>, graphics: bool) -> Option<int> {
    if exists|i: int| is_first_family(fams, graphics, i) {
        Some(choose|i: int| is_first_family(fams, graphics, i))
    } else {
        None
    }
}

/// The queue families a device would be used with, when it has both roles covered.
pub open spec fn queue_support(d: CandidateDevice) -> Option<DeviceDetails> {
    let fams = d.queue_families@;
    match (first_family(fams, true), first_family(fams, false)) {
        (Some(g), Some(p)) => Some(
            DeviceDetails { name: d.name, graphics_queue_index: g as u32, present_queue_index: p as u32 },
        ),
        _ => None,
    }
}

pub open spec fn has_queue_support(d: CandidateDevice) -> bool {
    queue_support(d) is Some
}

pub open spec fn suitable_device(d: CandidateDevice) -> SuitableDevice {
    SuitableDevice { handle: d.handle, details: queue_support(d)->Some_0 }
}

/// Whether one of the devices has the given handle.
pub open spec fn has_handle(devices: Seq<CandidateDevice>, handle: u64) -> bool {
    exists|j: int| 0 <= j < devices.len() && devices[j].handle == handle
}

/// Queue-family indices are `u32` at the driver boundary.
pub open spec fn family_counts_fit(devices: Seq<CandidateDevice>) -> bool {
    forall|i: int| 0 <= i < devices.len() ==> #[trigger] devices[i].queue_families@.len() <= u32::MAX
}

pub open spec fn extension_stage(devices: Seq<CandidateDevice>, required: Seq<String>) -> Seq<
    CandidateDevice,
> {
    devices.filter(|d: CandidateDevice| supports_extensions(d, required))
}

pub open spec fn adequacy_stage(devices: Seq<CandidateDevice>) -> Seq<CandidateDevice> {
    devices.filter(|d: CandidateDevice| swapchain_adequate(d))
}

pub open spec fn queue_family_stage(devices: Seq<CandidateDevice>) -> Seq<SuitableDevice> {
    devices.filter(|d: CandidateDevice| has_queue_support(d)).map_values(
        |d: CandidateDevice| suitable_device(d),
    )
}

/// The outcome of selection: the first device to pass every filter, or the
/// reason none did.
pub open spec fn selection(devices: Seq<CandidateDevice>, required: Seq<String>) -> Result<
    SuitableDevice,
    SetupError,
> {
    let by_extensions = extension_stage(devices, required);
    let adequate = adequacy_stage(by_extensions);
    let usable = queue_family_stage(adequate);
    if devices.len() == 0 {
        Err(SetupError::NoDevicesFound)
    } else if by_extensions.len() == 0 {
        Err(SetupError::NoSuitableDevice { stage: FilterStage::ExtensionSupport })
    } else if adequate.len() == 0 {
        Err(SetupError::NoSuitableDevice { stage: FilterStage::PresentationAdequacy })
    } else if usable.len() == 0 {
        Err(SetupError::NoSuitableDevice { stage: FilterStage::QueueFamilySupport })
    } else {
        Ok(usable[0])
    }
}

proof fn lemma_filter_extend<A>(s: Seq<A>, k: int, pred: spec_fn(A) -> bool)
    requires
        0 <= k < s.len(),
    ensures
        s.subrange(0, k + 1).filter(pred) == if pred(s[k]) {
            s.subrange(0, k).filter(pred).push(s[k])
        } else {
            s.subrange(0, k).filter(pred)
        },
{
    reveal(Seq::filter);
    assert(s.subrange(0, k + 1).drop_last() =~= s.subrange(0, k));
}

proof fn lemma_filter_push<A>(s: Seq<A>, x: A, pred: spec_fn(A) -> bool)
    ensures
        s.push(x).filter(pred) == if pred(x) {
            s.filter(pred).push(x)
        } else {
            s.filter(pred)
        },
{
    reveal(Seq::filter);
    assert(s.push(x).drop_last() =~= s);
}

proof fn lemma_filter_commute<A>(s: Seq<A>, p: spec_fn(A) -> bool, q: spec_fn(A) -> bool)
    ensures
        s.filter(p).filter(q) == s.filter(q).filter(p),
    decreases s.len(),
{
    reveal(Seq::filter);
    if s.len() > 0 {
        let rest = s.drop_last();
        let x = s.last();
        lemma_filter_commute(rest, p, q);
        lemma_filter_push(rest.filter(p), x, q);
        lemma_filter_push(rest.filter(q), x, p);
    }
}

pub(crate) fn contains_name(names: &Vec<String>, name: &String) -> (r: bool)
    ensures
        r == has_name(names@, name@),
{
    let mut j: usize = 0;
    while j < names.len()
        invariant
            0 <= j <= names@.len(),
            forall|k: int| 0 <= k < j ==> names@[k]@ != name@,
        decreases names@.len() - j,
    {
        if names[j] == *name {
            return true;
        }
        j = j + 1;
    }
    false
}

fn has_extensions(d: &CandidateDevice, required: &Vec<String>) -> (r: bool)
    ensures
        r == supports_extensions(*d, required@),
{
    let mut i: usize = 0;
    while i < required.len()
        invariant
            0 <= i <= required@.len(),
            forall|k: int| 0 <= k < i ==> has_name(d.extensions@, #[trigger] required@[k]@),
        decreases required@.len() - i,
    {
        if !contains_name(&d.extensions, &required[i]) {
            return false;
        }
        i = i + 1;
    }
    true
}

/// The first family serving the role, found by a scan in family order.
fn find_first_family(fams: &Vec<QueueFamily>, graphics: bool) -> (r: Option<u32>)
    requires
        fams@.len() <= u32::MAX,
    ensures
        r matches Some(i) ==> first_family(fams@, graphics) == Some(i as int),
        r is None ==> first_family(fams@, graphics) is None,
{
    let mut i: usize = 0;
    while i < fams.len()
        invariant
            0 <= i <= fams@.len(),
            fams@.len() <= u32::MAX,
            forall|j: int| 0 <= j < i ==> !serves(#[trigger] fams@[j], graphics),
        decreases fams@.len() - i,
    {
        let f = fams[i];
        let ok = f.queue_count > 0 && if graphics {
            f.graphics
        } else {
            f.present_support
        };
        if ok {
            proof {
                let k = i as int;
                assert(is_first_family(fams@, graphics, k));
                let c = choose|c: int| is_first_family(fams@, graphics, c);
                if c < k {
                    assert(!serves(fams@[c], graphics));
                } else if c > k {
                    assert(!serves(fams@[k], graphics));
                }
            }
            return Some(i as u32);
        }
        i = i + 1;
    }
    None
}

/// Step one of selection: enumeration must have found at least one accelerator.
pub fn physical_devices(found: Vec<CandidateDevice>) -> (r: Result<
    Vec<CandidateDevice>,
    SetupError,
>)
    ensures
        found@.len() == 0 ==> r matches Err(SetupError::NoDevicesFound),
        found@.len() > 0 ==> (r matches Ok(v) && v@ == found@),
{
    if found.len() == 0 {
        Err(SetupError::NoDevicesFound)
    } else {
        Ok(found)
    }
}

/// Keeps the devices that advertise every required extension, in order.
pub fn devices_extension_support(devices: Vec<CandidateDevice>, required: &Vec<String>) -> (r: Vec<
    CandidateDevice,
>)
    ensures
        r@ == extension_stage(devices@, required@),
{
    let ghost pred = |d: CandidateDevice| supports_extensions(d, required@);
    let ghost all = devices@;
    let mut out: Vec<CandidateDevice> = Vec::new();
    for d in it: devices.into_iter()
        invariant
            it.seq() == all,
            pred == (|d: CandidateDevice| supports_extensions(d, required@)),
            out@ == all.subrange(0, it.index() as int).filter(pred),
    {
        proof {
            lemma_filter_extend(all, it.index() as int, pred);
        }
        if has_extensions(&d, required) {
            out.push(d);
        }
    }
    proof {
        assert(all.subrange(0, all.len() as int) =~= all);
    }
    out
}

/// Keeps the devices for which the surface offers a format and a present mode, in order.
pub fn devices_swapchain_adequate(devices: Vec<CandidateDevice>) -> (r: Vec<CandidateDevice>)
    ensures
        r@ == adequacy_stage(devices@),
{
    let ghost pred = |d: CandidateDevice| swapchain_adequate(d);
    let ghost all = devices@;
    let mut out: Vec<CandidateDevice> = Vec::new();
    for d in it: devices.into_iter()
        invariant
            it.seq() == all,
            pred == (|d: CandidateDevice| swapchain_adequate(d)),
            out@ == all.subrange(0, it.index() as int).filter(pred),
    {
        proof {
            lemma_filter_extend(all, it.index() as int, pred);
        }
        if d.formats.len() > 0 && d.present_modes.len() > 0 {
            out.push(d);
        }
    }
    proof {
        assert(all.subrange(0, all.len() as int) =~= all);
    }
    out
}

/// Resolves the graphics and present families of each device and keeps the
/// devices that have both, in order.
pub fn devices_queue_family_support(devices: Vec<CandidateDevice>) -> (r: Vec<SuitableDevice>)
    requires
        family_counts_fit(devices@),
    ensures
        r@ == queue_family_stage(devices@),
{
    let ghost pred = |d: CandidateDevice| has_queue_support(d);
    let ghost f = |d: CandidateDevice| suitable_device(d);
    let ghost all = devices@;
    let mut out: Vec<SuitableDevice> = Vec::new();
    for d in it: devices.into_iter()
        invariant
            it.seq() == all,
            family_counts_fit(all),
            pred == (|d: CandidateDevice| has_queue_support(d)),
            f == (|d: CandidateDevice| suitable_device(d)),
            out@ == all.subrange(0, it.index() as int).filter(pred).map_values(f),
    {
        let ghost k = it.index() as int;
        proof {
            lemma_filter_extend(all, k, pred);
            assert(d.queue_families@.len() <= u32::MAX);
        }
        let graphics = find_first_family(&d.queue_families, true);
        let present = find_first_family(&d.queue_families, false);
        match (graphics, present) {
            (Some(g), Some(p)) => {
                let ghost current = d;
                let details = DeviceDetails {
                    name: d.name,
                    graphics_queue_index: g,
                    present_queue_index: p,
                };
                out.push(SuitableDevice { handle: d.handle, details });
                proof {
                    assert(current == all[k]);
                    assert(out@ =~= all.subrange(0, k + 1).filter(pred).map_values(f));
                }
            },
            _ => {},
        }
    }
    proof {
        assert(all.subrange(0, all.len() as int) =~= all);
    }
    out
}

/// The first device of the list, or an error when the list is empty.
pub fn pick_physical_device(devices: &Vec<SuitableDevice>) -> (r: Result<
    (u64, DeviceDetails),
    AppError,
>)
    ensures
        devices@.len() > 0 ==> r == Ok::<(u64, DeviceDetails), AppError>(
            (devices@[0].handle, devices@[0].details),
        ),
        devices@.len() == 0 ==> (r matches Err(e) && e.message()
            == "No supported physical devices to choose from!"@),
{
    if devices.len() > 0 {
        let first = &devices[0];
        let details = DeviceDetails {
            name: first.details.name.clone(),
            graphics_queue_index: first.details.graphics_queue_index,
            present_queue_index: first.details.present_queue_index,
        };
        Ok((first.handle, details))
    } else {
        Err(AppError::new("No supported physical devices to choose from!"))
    }
}

/// Runs the filters in order and picks the first device left standing. When
/// none is left, the error names the filter that removed the last candidates.
pub fn select_device(devices: Vec<CandidateDevice>, required: &Vec<String>) -> (r: Result<
    SuitableDevice,
    SetupError,
>)
    requires
        family_counts_fit(devices@),
    ensures
        r == selection(devices@, required@),
{
    let ghost all = devices@;
    let found = match physical_devices(devices) {
        Ok(v) => v,
        Err(e) => return Err(e),
    };
    let by_extensions = devices_extension_support(found, required);
    if by_extensions.len() == 0 {
        return Err(SetupError::NoSuitableDevice { stage: FilterStage::ExtensionSupport });
    }
    proof {
        lemma_filtered_counts_fit(all, |d: CandidateDevice| supports_extensions(d, required@));
    }
    let adequate = devices_swapchain_adequate(by_extensions);
    if adequate.len() == 0 {
        return Err(SetupError::NoSuitableDevice { stage: FilterStage::PresentationAdequacy });
    }
    proof {
        lemma_filtered_counts_fit(
            extension_stage(all, required@),
            |d: CandidateDevice| swapchain_adequate(d),
        );
    }
    let mut usable = devices_queue_family_support(adequate);
    if usable.len() == 0 {
        return Err(SetupError::NoSuitableDevice { stage: FilterStage::QueueFamilySupport });
    }
    Ok(usable.remove(0))
}

/// Every filter narrows: the extension and presentation filters return devices
/// of their input, and so does the queue-family filter, identified by handle.
/// The extension and presentation filters commute, so the queue-family filter
/// sees the same devices, and returns the same result, in either order.
pub proof fn lemma_filters_narrow_and_commute(devices: Seq<CandidateDevice>, required: Seq<String>)
    ensures
        forall|x: CandidateDevice| #[trigger]
            extension_stage(devices, required).contains(x) ==> devices.contains(x),
        forall|x: CandidateDevice| #[trigger] adequacy_stage(devices).contains(x) ==> devices.contains(x),
        queue_family_stage(devices).len() <= devices.len(),
        forall|i: int|
            0 <= i < queue_family_stage(devices).len() ==> has_handle(
                devices,
                #[trigger] queue_family_stage(devices)[i].handle,
            ),
        adequacy_stage(extension_stage(devices, required)) == extension_stage(
            adequacy_stage(devices),
            required,
        ),
        queue_family_stage(adequacy_stage(extension_stage(devices, required)))
            == queue_family_stage(extension_stage(adequacy_stage(devices), required)),
{
    let ext = |d: CandidateDevice| supports_extensions(d, required);
    let adq = |d: CandidateDevice| swapchain_adequate(d);
    let qf = |d: CandidateDevice| has_queue_support(d);
    assert forall|x: CandidateDevice| #[trigger]
        extension_stage(devices, required).contains(x) implies devices.contains(x) by {
        devices.lemma_filter_contains_rev(ext, x);
    }
    assert forall|x: CandidateDevice| #[trigger] adequacy_stage(devices).contains(x) implies devices.contains(
        x,
    ) by {
        devices.lemma_filter_contains_rev(adq, x);
    }
    devices.lemma_filter_len(qf);
    assert forall|i: int| 0 <= i < queue_family_stage(devices).len() implies has_handle(
        devices,
        #[trigger] queue_family_stage(devices)[i].handle,
    ) by {
        let kept = devices.filter(qf);
        assert(kept.contains(kept[i]));
        devices.lemma_filter_contains_rev(qf, kept[i]);
        let j = choose|j: int| 0 <= j < devices.len() && devices[j] == kept[i];
        assert(devices[j].handle == queue_family_stage(devices)[i].handle);
    }
    lemma_filter_commute(devices, ext, adq);
}

/// The families that get a queue-creation request: one per distinct family.
pub open spec fn queue_request_families(graphics: u32, present: u32) -> Seq<u32> {
    if graphics == present {
        seq![graphics]
    } else {
        seq![graphics, present]
    }
}

/// The queue families to request one queue from when creating the logical
/// device, graphics first, a shared family once.
pub fn queue_create_families(details: &DeviceDetails) -> (r: Vec<u32>)
    ensures
        r@ == queue_request_families(details.graphics_queue_index, details.present_queue_index),
{
    let mut families: Vec<u32> = Vec::new();
    families.push(details.graphics_queue_index);
    if details.present_queue_index != details.graphics_queue_index {
        families.push(details.present_queue_index);
    }
    proof {
        assert(families@ =~= queue_request_families(
            details.graphics_queue_index,
            details.present_queue_index,
        ));
    }
    families
}

/// A family shared by both roles gets exactly one queue-creation request, and
/// two distinct families get exactly two.
pub proof fn lemma_queue_requests_dedup(details: DeviceDetails)
    ensures
        details.graphics_queue_index == details.present_queue_index ==> queue_request_families(
            details.graphics_queue_index,
            details.present_queue_index,
        ).len() == 1,
        details.graphics_queue_index != details.present_queue_index ==> queue_request_families(
            details.graphics_queue_index,
            details.present_queue_index,
        ).len() == 2,
{
}

/// A device that selection returns is one of the input devices; it supports
/// every required extension, is presentation-adequate, and its graphics and
/// present queue indices name existing families, the first of each role.
pub proof fn lemma_selected_device_passed_filters(
    devices: Seq<CandidateDevice>,
    required: Seq<String>,
)
    requires
        family_counts_fit(devices),
        selection(devices, required) is Ok,
    ensures
        ({
            let chosen = selection(devices, required)->Ok_0;
            exists|j: int|
                0 <= j < devices.len() && #[trigger] devices[j].handle == chosen.handle
                    && supports_extensions(devices[j], required) && swapchain_adequate(devices[j])
                    && is_first_family(
                    devices[j].queue_families@,
                    true,
                    chosen.details.graphics_queue_index as int,
                ) && is_first_family(
                    devices[j].queue_families@,
                    false,
                    chosen.details.present_queue_index as int,
                )
        }),
{
    let ext = |d: CandidateDevice| supports_extensions(d, required);
    let adq = |d: CandidateDevice| swapchain_adequate(d);
    let qf = |d: CandidateDevice| has_queue_support(d);
    let by_extensions = extension_stage(devices, required);
    let adequate = adequacy_stage(by_extensions);
    let kept = adequate.filter(qf);
    assert(kept.len() > 0);
    let d = kept[0];
    adequate.lemma_filter_pred(qf, 0);
    assert(kept.contains(d));
    adequate.lemma_filter_contains_rev(qf, d);
    let a = choose|a: int| 0 <= a < adequate.len() && adequate[a] == d;
    by_extensions.lemma_filter_pred(adq, a);
    assert(by_extensions.filter(adq).contains(d));
    by_extensions.lemma_filter_contains_rev(adq, d);
    let b = choose|b: int| 0 <= b < by_extensions.len() && by_extensions[b] == d;
    devices.lemma_filter_pred(ext, b);
    assert(devices.filter(ext).contains(d));
    devices.lemma_filter_contains_rev(ext, d);
    let j = choose|j: int| 0 <= j < devices.len() && devices[j] == d;
    assert(devices[j].queue_families@.len() <= u32::MAX);
    let fams = d.queue_families@;
    let g = first_family(fams, true)->Some_0;
    let p = first_family(fams, false)->Some_0;
    assert(is_first_family(fams, true, g));
    assert(is_first_family(fams, false, p));
    assert(selection(devices, required)->Ok_0 == suitable_device(d));
}

proof fn lemma_filtered_counts_fit(devices: Seq<CandidateDevice>, pred: spec_fn(CandidateDevice) -> bool)
    requires
        family_counts_fit(devices),
    ensures
        family_counts_fit(devices.filter(pred)),
{
    broadcast use vstd::seq_lib::group_filter_ensures;

    assert forall|i: int| 0 <= i < devices.filter(pred).len() implies #[trigger] devices.filter(
        pred,
    )[i].queue_families@.len() <= u32::MAX by {
        let x = devices.filter(pred)[i];
        assert(devices.filter(pred).contains(x));
        devices.lemma_filter_contains_rev(pred, x);
    }
}

} // verus!
