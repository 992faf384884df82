//! The choice of the device that a model is loaded onto.

use crate::json::opt_string;
use crate::text::{ascii_lowercase, contains, contains_text, owned, same, to_ascii_lowercase, trim, trimmed};
use vstd::prelude::*;

verus! {

/// The backend that a model runs on.
#[derive(Debug, Clone, Copy, PartialEq, Eq, Structural)]
pub enum BackendKind {
    Cuda,
    Vulkan,
    Cpu,
}

impl BackendKind {
    /// The name of a backend.
    pub open spec fn name(self) -> Seq<char> {
        match self {
            BackendKind::Cuda => "cuda"@,
            BackendKind::Vulkan => "vulkan"@,
            BackendKind::Cpu => "cpu"@,
        }
    }

    /// The name of a backend.
    pub fn as_str(self) -> (r: &'static str)
        ensures
            r@ == self.name(),
    {
        match self {
            BackendKind::Cuda => "cuda",
            BackendKind::Vulkan => "vulkan",
            BackendKind::Cpu => "cpu",
        }
    }

    /// The backend of a name; any other name is the processor.
    pub open spec fn named(name: Seq<char>) -> BackendKind {
        if name == "cuda"@ {
            BackendKind::Cuda
        } else if name == "vulkan"@ {
            BackendKind::Vulkan
        } else {
            BackendKind::Cpu
        }
    }
}

/// The name of a backend reads back as that backend.
pub proof fn backend_reads_back(k: BackendKind)
    ensures
        BackendKind::named(k.name()) == k,
{
    reveal_strlit("cuda");
    reveal_strlit("vulkan");
    reveal_strlit("cpu");
    assert("cuda"@.len() == 4 && "vulkan"@.len() == 6 && "cpu"@.len() == 3);
}

/// What kind of device it is.
#[derive(Debug, Clone, Copy, PartialEq, Eq, Structural)]
pub enum DeviceType {
    Cpu,
    Gpu,
    IntegratedGpu,
    /// An accelerator of another kind.
    Accelerator,
    Unknown,
}

/// A device as the engine enumerates it.
#[derive(Debug, Clone, PartialEq)]
pub struct BackendDevice {
    pub index: usize,
    pub name: String,
    pub description: String,
    pub backend: String,
    pub memory_total: u64,
    pub memory_free: u64,
    pub device_type: DeviceType,
}

/// The chosen backend and the device it came from.
#[derive(Debug, Clone, PartialEq)]
pub struct SelectedBackend {
    /// `cuda`, `vulkan` or `cpu`.
    pub backend: String,
    /// The name of the device, none for the processor.
    pub device: Option<String>,
    pub device_index: Option<usize>,
    /// The memory of the device, 0 for the processor, which has none of its own.
    pub memory_free: u64,
    pub memory_total: u64,
    /// The memory that a model may draw on: for the processor that of the system.
    pub usable_memory: u64,
}

/// What a choice is.
#[verifier::ext_equal]
pub struct SelectedV {
    pub backend: Seq<char>,
    pub device: Option<Seq<char>>,
    pub device_index: Option<usize>,
    pub memory_free: u64,
    pub memory_total: u64,
    pub usable_memory: u64,
}

impl View for SelectedBackend {
    type V = SelectedV;

    open spec fn view(&self) -> SelectedV {
        SelectedV {
            backend: self.backend@,
            device: opt_string(self.device),
            device_index: self.device_index,
            memory_free: self.memory_free,
            memory_total: self.memory_total,
            usable_memory: self.usable_memory,
        }
    }
}

/// The free memory of the first device that is a processor.
pub open spec fn system_memory(devices: Seq<BackendDevice>) -> u64
    decreases devices.len(),
{
    if devices.len() == 0 {
        0
    } else if devices[0].device_type == DeviceType::Cpu {
        devices[0].memory_free
    } else {
        system_memory(devices.skip(1))
    }
}

/// The processor as a choice: no memory of its own, that of the system to draw on.
pub open spec fn on_cpu(devices: Seq<BackendDevice>) -> SelectedV {
    SelectedV {
        backend: "cpu"@,
        device: None,
        device_index: None,
        memory_free: 0,
        memory_total: 0,
        usable_memory: system_memory(devices),
    }
}

/// The backend of a device, by what its name holds.
pub open spec fn device_kind(d: BackendDevice) -> BackendKind {
    let b = ascii_lowercase(d.backend@);
    if contains_text(b, "cuda"@) {
        BackendKind::Cuda
    } else if contains_text(b, "vulkan"@) {
        BackendKind::Vulkan
    } else {
        BackendKind::Cpu
    }
}

/// The rank of a device, smaller is better: the backend first, then whether it has memory
/// of its own. `None` for what is no usable accelerator.
pub open spec fn rank_of(d: BackendDevice) -> Option<(int, int)> {
    let own = match d.device_type {
        DeviceType::Gpu => Some(0int),
        DeviceType::IntegratedGpu => Some(1int),
        _ => None,
    };
    match (own, device_kind(d)) {
        (Some(k), BackendKind::Cuda) => Some((0, k)),
        (Some(k), BackendKind::Vulkan) => Some((1, k)),
        _ => None,
    }
}

/// One device is better than another: by rank, then by free memory.
pub open spec fn better(a: BackendDevice, b: BackendDevice) -> bool {
    match (rank_of(a), rank_of(b)) {
        (Some(x), Some(y)) => x.0 < y.0 || (x.0 == y.0 && (x.1 < y.1 || (x.1 == y.1
            && a.memory_free > b.memory_free))),
        _ => false,
    }
}

/// The device is a usable accelerator of the backend asked for.
pub open spec fn eligible(d: BackendDevice, want: Option<BackendKind>) -> bool {
    rank_of(d) is Some && (want is Some ==> device_kind(d) == want->0)
}

/// The best eligible device, the first of several that are equally good.
pub open spec fn best_device(devices: Seq<BackendDevice>, want: Option<BackendKind>) -> Option<int>
    decreases devices.len(),
{
    if devices.len() == 0 {
        None
    } else {
        let n = devices.len() - 1;
        let before = best_device(devices.drop_last(), want);
        if !eligible(devices[n], want) {
            before
        } else {
            match before {
                Some(i) => if better(devices[n], devices[i]) {
                    Some(n)
                } else {
                    before
                },
                None => Some(n),
            }
        }
    }
}

/// The best device is eligible, and no eligible one is better. There is one where any
/// device is eligible. So a discrete device wins over an integrated one of its backend
/// whatever memory that claims, CUDA wins over Vulkan, and a device of a backend that has
/// no rank is never chosen.
pub proof fn best_is_best(devices: Seq<BackendDevice>, want: Option<BackendKind>)
    ensures
        match best_device(devices, want) {
            Some(i) => 0 <= i < devices.len() && eligible(devices[i], want) && forall|j: int|
                0 <= j < devices.len() && eligible(#[trigger] devices[j], want) ==> !better(
                    devices[j],
                    devices[i],
                ),
            None => forall|j: int|
                0 <= j < devices.len() ==> !eligible(#[trigger] devices[j], want),
        },
    decreases devices.len(),
{
    if devices.len() > 0 {
        let n = devices.len() - 1;
        let rest = devices.drop_last();
        best_is_best(rest, want);
        assert forall|j: int| 0 <= j < n implies rest[j] == #[trigger] devices[j] by {}
        match best_device(devices, want) {
            Some(i) => {
                assert forall|j: int|
                    0 <= j < devices.len() && eligible(#[trigger] devices[j], want) implies !better(
                    devices[j],
                    devices[i],
                ) by {
                    if j < n {
                        assert(rest[j] == devices[j]);
                    }
                }
            },
            None => {
                assert forall|j: int| 0 <= j < devices.len() implies !eligible(
                    #[trigger] devices[j],
                    want,
                ) by {
                    if j < n {
                        assert(rest[j] == devices[j]);
                    }
                }
            },
        }
    }
}

/// A device as a choice.
pub open spec fn described(d: BackendDevice) -> SelectedV {
    SelectedV {
        backend: device_kind(d).name(),
        device: Some(
            if d.description@.len() == 0 {
                d.name@
            } else {
                d.description@
            },
        ),
        device_index: Some(d.index),
        memory_free: d.memory_free,
        memory_total: d.memory_total,
        usable_memory: d.memory_free,
    }
}

/// The choice among the devices. The processor where it is asked for; else the best device,
/// of the backend that is asked for if one is; the processor where there is none.
pub open spec fn selection(devices: Seq<BackendDevice>, preference: Seq<char>) -> SelectedV {
    if preference == "cpu"@ {
        on_cpu(devices)
    } else {
        let want = if preference == "cuda"@ {
            Some(BackendKind::Cuda)
        } else if preference == "vulkan"@ {
            Some(BackendKind::Vulkan)
        } else {
            None
        };
        match best_device(devices, want) {
            Some(i) => described(devices[i]),
            None => on_cpu(devices),
        }
    }
}

/// A backend that is asked for is used or the processor is, never another.
pub proof fn a_pinned_backend_or_the_processor(devices: Seq<BackendDevice>, want: BackendKind)
    requires
        want != BackendKind::Cpu,
    ensures
        selection(devices, want.name()).backend == want.name() || selection(
            devices,
            want.name(),
        ) == on_cpu(devices),
{
    best_is_best(devices, Some(want));
    reveal_strlit("cuda");
    reveal_strlit("vulkan");
    reveal_strlit("cpu");
    assert("cuda"@.len() == 4 && "vulkan"@.len() == 6 && "cpu"@.len() == 3);
}

fn kind_of(d: &BackendDevice) -> (r: BackendKind)
    ensures
        r == device_kind(*d),
{
    let b = to_ascii_lowercase(d.backend.as_str());
    if contains(b.as_str(), "cuda") {
        BackendKind::Cuda
    } else if contains(b.as_str(), "vulkan") {
        BackendKind::Vulkan
    } else {
        BackendKind::Cpu
    }
}

/// The rank of a device, smaller is better; `None` for what is no usable accelerator.
pub fn gpu_rank(d: &BackendDevice) -> (r: Option<(u8, u8)>)
    ensures
        (match r {
            Some((a, b)) => Some((a as int, b as int)),
            None => None,
        }) == rank_of(*d),
{
    let own: u8 = match d.device_type {
        DeviceType::Gpu => 0,
        DeviceType::IntegratedGpu => 1,
        _ => return None,
    };
    match kind_of(d) {
        BackendKind::Cuda => Some((0, own)),
        BackendKind::Vulkan => Some((1, own)),
        BackendKind::Cpu => None,
    }
}

/// A device as a choice.
pub fn describe(d: &BackendDevice) -> (r: SelectedBackend)
    ensures
        r@ == described(*d),
{
    let device = if d.description.as_str().is_empty() {
        d.name.clone()
    } else {
        d.description.clone()
    };
    SelectedBackend {
        backend: owned(kind_of(d).as_str()),
        device: Some(device),
        device_index: Some(d.index),
        memory_free: d.memory_free,
        memory_total: d.memory_total,
        usable_memory: d.memory_free,
    }
}

impl SelectedBackend {
    /// The backend of the choice.
    pub fn kind(&self) -> (r: BackendKind)
        ensures
            r == BackendKind::named(self.backend@),
    {
        if same(self.backend.as_str(), "cuda") {
            BackendKind::Cuda
        } else if same(self.backend.as_str(), "vulkan") {
            BackendKind::Vulkan
        } else {
            BackendKind::Cpu
        }
    }

    /// The processor as a choice.
    pub fn cpu(devices: &[BackendDevice]) -> (r: SelectedBackend)
        ensures
            r@ == on_cpu(devices@),
    {
        let mut usable_memory: u64 = 0;
        let mut i: usize = 0;
        let mut found = false;
        proof {
            assert(devices@.skip(0) =~= devices@);
        }
        while i < devices.len() && !found
            invariant
                i <= devices@.len(),
                found ==> system_memory(devices@) == usable_memory,
                !found ==> usable_memory == 0 && system_memory(devices@) == system_memory(
                    devices@.skip(i as int),
                ),
            decreases devices@.len() - i,
        {
            proof {
                assert(devices@.skip(i as int)[0] == devices@[i as int]);
                assert(devices@.skip(i as int).skip(1) =~= devices@.skip(i + 1));
            }
            if devices[i].device_type == DeviceType::Cpu {
                usable_memory = devices[i].memory_free;
                found = true;
            }
            i += 1;
        }
        proof {
            if !found {
                assert(devices@.skip(i as int) =~= Seq::empty());
            }
        }
        SelectedBackend {
            backend: owned("cpu"),
            device: None,
            device_index: None,
            memory_free: 0,
            memory_total: 0,
            usable_memory,
        }
    }

    /// A copy of the choice.
    pub fn copy(&self) -> (r: SelectedBackend)
        ensures
            r@ == self@,
    {
        SelectedBackend {
            backend: self.backend.clone(),
            device: self.device.clone(),
            device_index: self.device_index,
            memory_free: self.memory_free,
            memory_total: self.memory_total,
            usable_memory: self.usable_memory,
        }
    }
}

fn is_better(a: &BackendDevice, b: &BackendDevice) -> (r: bool)
    ensures
        r == better(*a, *b),
{
    match (gpu_rank(a), gpu_rank(b)) {
        (Some((a0, a1)), Some((b0, b1))) => a0 < b0 || (a0 == b0 && (a1 < b1 || (a1 == b1
            && a.memory_free > b.memory_free))),
        _ => false,
    }
}

fn is_eligible(d: &BackendDevice, want: Option<BackendKind>) -> (r: bool)
    ensures
        r == eligible(*d, want),
{
    if gpu_rank(d).is_none() {
        return false;
    }
    match want {
        Some(k) => kind_of(d) == k,
        None => true,
    }
}

/// The choice among the devices. A preference that is not known lets the best device win;
/// a backend that is asked for and not there gives way to the processor.
pub fn select_from(devices: &[BackendDevice], preference: &str) -> (r: SelectedBackend)
    ensures
        r@ == selection(devices@, ascii_lowercase(trimmed(preference@))),
{
    let t = trim(preference);
    let pref = to_ascii_lowercase(t.as_str());
    if same(pref.as_str(), "cpu") {
        return SelectedBackend::cpu(devices);
    }
    let want = if same(pref.as_str(), "cuda") {
        Some(BackendKind::Cuda)
    } else if same(pref.as_str(), "vulkan") {
        Some(BackendKind::Vulkan)
    } else {
        None
    };
    let mut best: Option<usize> = None;
    let mut i: usize = 0;
    while i < devices.len()
        invariant
            i <= devices@.len(),
            best matches Some(b) ==> b < i,
            (match best {
                Some(b) => Some(b as int),
                None => None,
            }) == best_device(devices@.take(i as int), want),
        decreases devices@.len() - i,
    {
        proof {
            assert(devices@.take(i + 1).drop_last() =~= devices@.take(i as int));
            assert(devices@.take(i + 1)[i as int] == devices@[i as int]);
        }
        if is_eligible(&devices[i], want) {
            best = match best {
                Some(b) => {
                    proof {
                        assert(devices@.take(i + 1)[b as int] == devices@[b as int]);
                    }
                    if is_better(&devices[i], &devices[b]) {
                        Some(i)
                    } else {
                        Some(b)
                    }
                },
                None => Some(i),
            };
        }
        i += 1;
    }
    proof {
        assert(devices@.take(i as int) =~= devices@);
    }
    match best {
        Some(b) => describe(&devices[b]),
        None => SelectedBackend::cpu(devices),
    }
}

/// All devices, each as a choice.
pub fn available_devices(devices: &[BackendDevice]) -> (r: Vec<SelectedBackend>)
    ensures
        r@.len() == devices@.len(),
        forall|i: int| 0 <= i < r@.len() ==> (#[trigger] r@[i])@ == described(devices@[i]),
{
    let mut out: Vec<SelectedBackend> = Vec::new();
    let mut i: usize = 0;
    while i < devices.len()
        invariant
            i <= devices@.len(),
            out@.len() == i,
            forall|k: int| 0 <= k < i ==> (#[trigger] out@[k])@ == described(devices@[k]),
        decreases devices@.len() - i,
    {
        out.push(describe(&devices[i]));
        i += 1;
    }
    out
}

/// A device runs on the backend that its own name tells, in any case; it is ranked where it is
/// a graphics device of CUDA or Vulkan: CUDA first, and one with memory of its own first.
pub proof fn devices_are_ranked_by_backend_and_memory(d: BackendDevice)
    ensures
        ({
            let b = ascii_lowercase(d.backend@);
            let cuda = contains_text(b, "cuda"@);
            let vulkan = contains_text(b, "vulkan"@);
            let own: int = if d.device_type == DeviceType::Gpu {
                0
            } else {
                1
            };
            let graphics = d.device_type == DeviceType::Gpu || d.device_type
                == DeviceType::IntegratedGpu;
            &&& device_kind(d) == (if cuda {
                BackendKind::Cuda
            } else if vulkan {
                BackendKind::Vulkan
            } else {
                BackendKind::Cpu
            })
            &&& rank_of(d) == (if !graphics || (!cuda && !vulkan) {
                None
            } else if cuda {
                Some((0int, own))
            } else {
                Some((1int, own))
            })
        }),
{
}

/// Of two devices that can be used one is better where its backend is, then where it has memory
/// of its own, and then where more of its memory is free.
pub proof fn better_devices_are_chosen(devices: Seq<BackendDevice>, i: int, j: int)
    requires
        best_device(devices, None) == Some(i),
        0 <= j < devices.len(),
        rank_of(devices[j]) is Some,
    ensures
        0 <= i < devices.len(),
        rank_of(devices[i]) is Some,
        ({
            let a = rank_of(devices[i])->0;
            let b = rank_of(devices[j])->0;
            &&& a.0 <= b.0
            &&& a.0 == b.0 ==> a.1 <= b.1
            &&& a == b ==> devices[i].memory_free >= devices[j].memory_free
        }),
{
    best_is_best(devices, None);
    assert(eligible(devices[j], None));
    assert(!better(devices[j], devices[i]));
}

/// The choice says what it is: the backend of the device, the device's description or else its
/// name, its place and its memory, of which the free part may be used. The processor has no
/// memory of its own and may use that of the system.
pub proof fn choices_say_what_they_are(d: BackendDevice, devices: Seq<BackendDevice>)
    ensures
        described(d).backend == device_kind(d).name(),
        described(d).device == Some(
            if d.description@.len() > 0 {
                d.description@
            } else {
                d.name@
            },
        ),
        described(d).device_index == Some(d.index),
        described(d).memory_free == d.memory_free,
        described(d).memory_total == d.memory_total,
        described(d).usable_memory == d.memory_free,
        on_cpu(devices).backend == "cpu"@,
        on_cpu(devices).device is None,
        on_cpu(devices).device_index is None,
        on_cpu(devices).memory_free == 0,
        on_cpu(devices).memory_total == 0,
        on_cpu(devices).usable_memory == system_memory(devices),
        BackendKind::Cuda.name() == "cuda"@,
        BackendKind::Vulkan.name() == "vulkan"@,
        BackendKind::Cpu.name() == "cpu"@,
{
}

/// The processor is used where it is asked for, and where no device can be; in any other case
/// the best device is, of the backend that is asked for or of any.
pub proof fn preferences_are_kept(devices: Seq<BackendDevice>, preference: Seq<char>)
    ensures
        preference == "cpu"@ ==> selection(devices, preference) == on_cpu(devices),
        preference == "cuda"@ ==> selection(devices, preference) == (match best_device(
            devices,
            Some(BackendKind::Cuda),
        ) {
            Some(i) => described(devices[i]),
            None => on_cpu(devices),
        }),
        preference == "vulkan"@ ==> selection(devices, preference) == (match best_device(
            devices,
            Some(BackendKind::Vulkan),
        ) {
            Some(i) => described(devices[i]),
            None => on_cpu(devices),
        }),
        preference != "cpu"@ && preference != "cuda"@ && preference != "vulkan"@ ==> selection(
            devices,
            preference,
        ) == (match best_device(devices, None) {
            Some(i) => described(devices[i]),
            None => on_cpu(devices),
        }),
{
    reveal_strlit("cuda");
    reveal_strlit("vulkan");
    reveal_strlit("cpu");
    assert("cuda"@.len() == 4 && "vulkan"@.len() == 6 && "cpu"@.len() == 3);
}

/// The memory of the system is what the first processor that is listed has free.
pub proof fn the_first_processor_has_the_memory(first: BackendDevice, rest: Seq<BackendDevice>)
    ensures
        system_memory(Seq::empty()) == 0,
        system_memory(seq![first] + rest) == (if first.device_type == DeviceType::Cpu {
            first.memory_free
        } else {
            system_memory(rest)
        }),
{
    let all = seq![first] + rest;
    assert(all[0] == first);
    assert(all.skip(1) =~= rest);
}

} // verus!
